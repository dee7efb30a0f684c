use base64::engine::general_purpose::URL_SAFE_NO_PAD;
use base64::Engine;
use jsonwebtoken::{encode, Algorithm, EncodingKey, Header};
use serde_json::Value;

use mcpg_runtime::identity_plugin::{
    has_room, header_map, IdentityResolution, JwtIdentityPlugin,
};
use mcpg_runtime::jwt::{
    conclude, decide, map_key_algorithm, read_claims, Audience, JwksConfig, JwtAlgorithm,
    JwtVerificationResult, JwtVerifier, KeyAlgorithm, StandardClaims,
};
use mcpg_runtime::message_dispatcher::GatewayMessageDispatcher;
use mcpg_runtime::token_text::{given_twice, repeats_claim};

const SECRET: &str = "super-secret-key-for-testing-only";

fn test_hmac_jwks(secret: &str) -> String {
    let encoded_secret = URL_SAFE_NO_PAD.encode(secret.as_bytes());
    format!(
        r#"{{"keys":[{{"kty":"oct","kid":"test-key-1","k":"{encoded_secret}","alg":"HS256"}}]}}"#
    )
}

fn test_config() -> JwksConfig {
    JwksConfig {
        url: "http://localhost/.well-known/jwks.json".to_owned(),
        keys_json: None,
        issuer: Some("test-issuer".to_owned()),
        audience: Some("test-audience".to_owned()),
        header_name: "authorization".to_owned(),
        header_prefix: "Bearer ".to_owned(),
        allow_missing_audience: true,
    }
}

fn prod_config() -> JwksConfig {
    JwksConfig { allow_missing_audience: false, ..test_config() }
}

fn valid_claims() -> serde_json::Map<String, Value> {
    let now = jsonwebtoken::get_current_timestamp();
    let mut claims = serde_json::Map::new();
    claims.insert("sub".to_owned(), Value::from("user-42"));
    claims.insert("iss".to_owned(), Value::from("test-issuer"));
    claims.insert("aud".to_owned(), Value::from("test-audience"));
    claims.insert("exp".to_owned(), Value::from(now + 3600));
    claims.insert("iat".to_owned(), Value::from(now));
    claims
}

fn signed(secret: &str, kid: Option<&str>, algorithm: Algorithm, claims: serde_json::Map<String, Value>) -> String {
    let key = EncodingKey::from_secret(secret.as_bytes());
    let mut header = Header::new(algorithm);
    header.kid = kid.map(str::to_owned);
    encode(&header, &Value::Object(claims), &key).expect("encoding should succeed")
}

fn make_test_token(secret: &str, claims: serde_json::Map<String, Value>) -> String {
    signed(secret, Some("test-key-1"), Algorithm::HS256, claims)
}

fn headers_with(token: &str) -> http::HeaderMap {
    let mut headers = http::HeaderMap::new();
    headers.insert("authorization", format!("Bearer {token}").parse().unwrap());
    headers
}

fn checker(config: &JwksConfig) -> JwtVerifier {
    match JwtVerifier::from_jwks_json(&test_hmac_jwks(SECRET), config) {
        Ok(v) => v,
        Err(e) => panic!("{e}"),
    }
}

#[test]
fn verifier_from_jwks_json_succeeds() {
    assert_eq!(checker(&test_config()).key_count(), 1);
    assert_eq!(checker(&test_config()).header_name(), "authorization");
}

#[test]
fn verifier_rejects_empty_jwks() {
    let err = JwtVerifier::from_jwks_json(r#"{"keys": []}"#, &test_config()).err().unwrap();
    assert!(err.contains("no usable keys"));
}

#[test]
fn verifier_rejects_what_is_no_key_set() {
    let err = JwtVerifier::from_jwks_json("nonsense", &test_config()).err().unwrap();
    assert_eq!(err, "failed to parse JWKS JSON");
    let bad = r#"{"keys":[{"kty":"oct","kid":"k1","k":"***","alg":"HS256"}]}"#;
    let err = JwtVerifier::from_jwks_json(bad, &test_config()).err().unwrap();
    assert_eq!(err, "failed to create decoding key from JWK (kid: Some(\"k1\"))");
}

#[test]
fn verify_valid_token() {
    let token = make_test_token(SECRET, valid_claims());
    match checker(&test_config()).verify_from_headers(&headers_with(&token)) {
        JwtVerificationResult::Verified { subject, issuer } => {
            assert_eq!(subject, "user-42");
            assert_eq!(issuer.as_deref(), Some("test-issuer"));
        }
        other => panic!("expected Verified, got {other:?}"),
    }
}

#[test]
fn verify_returns_no_token_when_header_missing() {
    let headers = http::HeaderMap::new();
    assert!(matches!(
        checker(&test_config()).verify_from_headers(&headers),
        JwtVerificationResult::NoToken
    ));
    let mut other = http::HeaderMap::new();
    other.insert("authorization", "Basic abc".parse().unwrap());
    assert!(matches!(
        checker(&test_config()).verify_from_headers(&other),
        JwtVerificationResult::NoToken
    ));
}

fn expect_invalid(config: &JwksConfig, token: &str, part: &str) {
    match checker(config).verify_from_headers(&headers_with(token)) {
        JwtVerificationResult::Invalid(msg) => assert!(msg.contains(part), "{msg}"),
        other => panic!("expected Invalid, got {other:?}"),
    }
}

#[test]
fn verify_rejects_expired_token() {
    let mut claims = valid_claims();
    claims.insert("exp".to_owned(), Value::from(1000));
    expect_invalid(&test_config(), &make_test_token(SECRET, claims), "verification failed");
}

#[test]
fn verify_rejects_wrong_issuer() {
    let mut claims = valid_claims();
    claims.insert("iss".to_owned(), Value::from("wrong-issuer"));
    expect_invalid(&test_config(), &make_test_token(SECRET, claims), "verification failed");
}

#[test]
fn verify_rejects_wrong_audience() {
    let mut claims = valid_claims();
    claims.insert("aud".to_owned(), Value::from("someone-else"));
    expect_invalid(&test_config(), &make_test_token(SECRET, claims), "verification failed");
}

#[test]
fn verify_rejects_wrong_secret() {
    let token = make_test_token("wrong-secret-not-matching", valid_claims());
    expect_invalid(&test_config(), &token, "verification failed");
}

#[test]
fn verify_rejects_missing_sub_claim() {
    let mut claims = valid_claims();
    claims.remove("sub");
    expect_invalid(&test_config(), &make_test_token(SECRET, claims), "sub");
    let mut blank = valid_claims();
    blank.insert("sub".to_owned(), Value::from("   "));
    expect_invalid(&test_config(), &make_test_token(SECRET, blank), "sub");
}

#[test]
fn verify_rejects_unknown_kid() {
    let token = signed(SECRET, Some("unknown-kid"), Algorithm::HS256, valid_claims());
    expect_invalid(&test_config(), &token, "no key found");
}

#[test]
fn verify_rejects_another_algorithm_of_the_same_key() {
    let token = signed(SECRET, Some("test-key-1"), Algorithm::HS384, valid_claims());
    expect_invalid(&test_config(), &token, "verification failed");
}

#[test]
fn tokens_without_a_kid_try_every_key() {
    let token = signed(SECRET, None, Algorithm::HS256, valid_claims());
    assert!(matches!(
        checker(&test_config()).verify_from_headers(&headers_with(&token)),
        JwtVerificationResult::Verified { .. }
    ));
}

#[test]
fn keys_without_an_algorithm_check_nothing() {
    let encoded = URL_SAFE_NO_PAD.encode(SECRET.as_bytes());
    let jwks = format!(r#"{{"keys":[{{"kty":"oct","kid":"test-key-1","k":"{encoded}"}}]}}"#);
    let v = match JwtVerifier::from_jwks_json(&jwks, &test_config()) {
        Ok(v) => v,
        Err(e) => panic!("{e}"),
    };
    let token = make_test_token(SECRET, valid_claims());
    assert!(matches!(
        v.verify_from_headers(&headers_with(&token)),
        JwtVerificationResult::Invalid(_)
    ));
}

#[test]
fn verify_rejects_token_missing_audience() {
    let mut claims = valid_claims();
    claims.remove("aud");
    expect_invalid(&prod_config(), &make_test_token(SECRET, claims), "");
}

#[test]
fn verify_rejects_token_missing_issuer() {
    let mut claims = valid_claims();
    claims.remove("iss");
    expect_invalid(&prod_config(), &make_test_token(SECRET, claims), "");
}

#[test]
fn verify_accepts_token_with_aud_and_iss_in_prod() {
    let token = make_test_token(SECRET, valid_claims());
    match checker(&prod_config()).verify_from_headers(&headers_with(&token)) {
        JwtVerificationResult::Verified { subject, .. } => assert_eq!(subject, "user-42"),
        other => panic!("well-formed token must verify, got {other:?}"),
    }
}

#[test]
fn one_audience_among_several_is_enough() {
    let mut claims = valid_claims();
    claims.insert(
        "aud".to_owned(),
        Value::Array(vec![Value::from("other"), Value::from("test-audience")]),
    );
    let token = make_test_token(SECRET, claims);
    assert!(matches!(
        checker(&prod_config()).verify_from_headers(&headers_with(&token)),
        JwtVerificationResult::Verified { .. }
    ));
}

#[test]
fn allow_missing_audience_permits_token_without_aud() {
    let mut claims = valid_claims();
    claims.remove("aud");
    let token = make_test_token(SECRET, claims);
    match checker(&test_config()).verify_from_headers(&headers_with(&token)) {
        JwtVerificationResult::Verified { .. } => {}
        other => panic!("escape-hatch should accept missing aud, got {other:?}"),
    }
}

fn unsigned(header: &str, payload: &str) -> String {
    let part = |text: &str| URL_SAFE_NO_PAD.encode(text.as_bytes());
    format!("{}.{}.{}", part(header), part(payload), part("no signature"))
}

#[test]
fn keys_that_are_too_short_check_nothing() {
    let short = URL_SAFE_NO_PAD.encode([7u8; 5]);
    let jwks = format!(
        r#"{{"keys":[{{"kty":"OKP","crv":"Ed25519","kid":"ed","x":"{short}","alg":"EdDSA"}}]}}"#
    );
    let verifying = JwtVerifier::from_jwks_json(&jwks, &test_config()).unwrap_or_else(|e| panic!("{e}"));
    let token = unsigned(r#"{"alg":"EdDSA","kid":"ed"}"#, r#"{"sub":"x"}"#);
    match verifying.verify_from_headers(&headers_with(&token)) {
        JwtVerificationResult::Invalid(msg) => {
            assert_eq!(msg, "token signature verification failed");
        }
        other => panic!("expected Invalid, got {other:?}"),
    }
}

#[test]
fn payloads_that_are_lists_are_refused() {
    let key = EncodingKey::from_secret(SECRET.as_bytes());
    let mut header = Header::new(Algorithm::HS256);
    header.kid = Some("test-key-1".to_owned());
    let exp = jsonwebtoken::get_current_timestamp() + 3600;
    let payload = Value::from(vec![Value::from(exp), Value::Null, Value::from("user-42")]);
    let token = encode(&header, &payload, &key).expect("encoding should succeed");
    expect_invalid(&test_config(), &token, "verification failed");
}

fn signed_text(payload: &str) -> String {
    let part = |text: &str| URL_SAFE_NO_PAD.encode(text.as_bytes());
    let message = format!("{}.{}", part(r#"{"alg":"HS256","kid":"test-key-1"}"#), part(payload));
    let key = EncodingKey::from_secret(SECRET.as_bytes());
    let signature = jsonwebtoken::crypto::sign(message.as_bytes(), &key, Algorithm::HS256).unwrap();
    format!("{message}.{signature}")
}

#[test]
fn claims_that_are_given_twice_are_refused() {
    let exp = jsonwebtoken::get_current_timestamp() + 3600;
    let with = |more: &str| {
        let payload = format!(
            r#"{{"sub":"u","iss":"test-issuer","aud":"test-audience","exp":{exp}{more}}}"#
        );
        signed_text(&payload)
    };
    let failed = "token signature verification failed";
    expect_invalid(&test_config(), &with(r#","iat":1,"iat":2"#), failed);
    expect_invalid(&test_config(), &with(r#","iat" : 1 ,"x":{"y":["]"]},"\u0069at":2"#), failed);
    expect_invalid(&test_config(), &with(r#","sub":"w""#), failed);
    for more in ["", r#","iat":1"#, r#","iat":1,"x":{"iat":1,"iat":2},"y":"iat","z":["iat"]"#] {
        match checker(&test_config()).verify_from_headers(&headers_with(&with(more))) {
            JwtVerificationResult::Verified { subject, .. } => assert_eq!(subject, "u"),
            other => panic!("expected Verified, got {other:?}"),
        }
    }
    assert!(repeats_claim(&with(r#","iat":1,"iat":2"#), "iat"));
    assert!(!repeats_claim("no dots", "iat"));
    assert!(!repeats_claim("a.***.b", "iat"));
}

#[test]
fn names_of_members_are_told_from_other_texts() {
    let twice = |text: &str| given_twice(&text.as_bytes().to_vec(), "a");
    assert!(twice(r#"{"a":1,"a":2}"#));
    assert!(twice(r#"{"a":1,"b":"\"a\":","a":2}"#));
    assert!(!twice(r#"{"a":1,"b":"\"a\":"}"#));
    assert!(!twice(r#"{"a":"a","b":["a"],"c":{"a":1}}"#));
    assert!(!twice(r#"{"a":1,"a"#));
    assert!(!twice(r#"["a","a"]"#));
    assert!(!twice(""));
}

#[test]
fn the_first_check_that_settles_decides() {
    let read = |text: &str| GatewayMessageDispatcher::new().read(text.as_bytes()).ok();
    let named = || read(r#"{"sub":"alice","iss":"i"}"#);
    let nameless = || read(r#"{"iss":"i"}"#);
    let unreadable = || read(r#"{"sub":7}"#);
    match decide(&vec![None, unreadable(), named(), nameless()]) {
        JwtVerificationResult::Verified { subject, issuer } => {
            assert_eq!(subject, "alice");
            assert_eq!(issuer.as_deref(), Some("i"));
        }
        other => panic!("expected Verified, got {other:?}"),
    }
    match decide(&vec![nameless(), named()]) {
        JwtVerificationResult::Invalid(msg) => assert_eq!(msg, "JWT missing or empty 'sub' claim"),
        other => panic!("expected Invalid, got {other:?}"),
    }
    match decide(&vec![None, unreadable()]) {
        JwtVerificationResult::Invalid(msg) => {
            assert_eq!(msg, "token signature verification failed");
        }
        other => panic!("expected Invalid, got {other:?}"),
    }
}

#[test]
fn later_keys_are_tried_where_earlier_ones_fail() {
    let first = URL_SAFE_NO_PAD.encode(b"another-secret-that-does-not-match");
    let second = URL_SAFE_NO_PAD.encode(SECRET.as_bytes());
    let jwks = format!(
        r#"{{"keys":[{{"kty":"oct","kid":"a","k":"{first}","alg":"HS256"}},{{"kty":"oct","kid":"b","k":"{second}","alg":"HS256"}}]}}"#
    );
    let verifying = JwtVerifier::from_jwks_json(&jwks, &test_config()).unwrap_or_else(|e| panic!("{e}"));
    let token = signed(SECRET, None, Algorithm::HS256, valid_claims());
    match verifying.verify_from_headers(&headers_with(&token)) {
        JwtVerificationResult::Verified { subject, .. } => assert_eq!(subject, "user-42"),
        other => panic!("expected Verified, got {other:?}"),
    }
}

#[test]
fn repeated_headers_take_one_place() {
    let mut pairs = vec![("x-a".to_owned(), "1".to_owned()); 7_000];
    assert!(has_room(&pairs));
    pairs.push(("not a name".to_owned(), "1".to_owned()));
    assert!(has_room(&pairs));
    let map = header_map(&pairs);
    assert_eq!(map.len(), 1);
    let many: Vec<(String, String)> =
        (0..6_554).map(|i| (format!("x-{i}"), "1".to_owned())).collect();
    assert!(!has_room(&many));
    assert!(has_room(&many[..6_553].to_vec()));
}

#[test]
fn key_algorithms_map_to_signing_algorithms() {
    assert_eq!(map_key_algorithm(KeyAlgorithm::RS256), Some(JwtAlgorithm::RS256));
    assert_eq!(map_key_algorithm(KeyAlgorithm::EdDSA), Some(JwtAlgorithm::EdDSA));
    assert_eq!(map_key_algorithm(KeyAlgorithm::RSA1_5), None);
}

#[test]
fn claims_are_read_by_kind() {
    let parse = |t: &str| GatewayMessageDispatcher::new().read(t.as_bytes()).unwrap();
    let claims = read_claims(&parse(r#"{"sub":"a","aud":["x","y"],"exp":12}"#)).unwrap();
    assert_eq!(claims.sub.as_deref(), Some("a"));
    assert_eq!(claims.exp, Some(12));
    assert!(matches!(claims.aud, Some(Audience::Multiple(v)) if v.len() == 2));
    assert!(read_claims(&parse(r#"{"sub":7}"#)).is_none());
    assert!(read_claims(&parse(r#"{"exp":"soon"}"#)).is_none());
}

#[test]
fn verdicts_need_a_subject() {
    let claims = |sub: Option<&str>| StandardClaims {
        sub: sub.map(str::to_owned),
        iss: None,
        aud: None,
        exp: Some(1),
        iat: None,
        nbf: None,
    };
    assert!(matches!(conclude(claims(Some("u"))), JwtVerificationResult::Verified { .. }));
    assert!(matches!(conclude(claims(None)), JwtVerificationResult::Invalid(_)));
}

const RSA_JWKS: &str = r#"{"keys":[{"kty":"RSA","n":"0vx7agoebGcQSuuPiLJXZptN9nndrQmbXEps2aiAFbWhM78LhWx4cbbfAAtVT86zwu1RK7aPFFxuhDR1L6tSoc_BJECPebWKRXjBZCiFV4n3oknjhMstn64tZ_2W-5JsGY4Hc5n9yBXArwl93lqt7_RN5w6Cf0h4QyQ5v-65YGjQR0_FDW2QvzqY368QQMicAtaSqzs8KJZgnYb9c7d0zgdAZHzu6qMQvRL5hajrn1n91CbOpbISD08qNLyrdkt-bFTWhAI4vMQFh6WeZu0fM4lFd2NcRwr3XPksINHaQ-G_xBniIqbw0Ls1jF44-csFCur-kEgU8awapJzKnqDKgw","e":"AQAB","alg":"RS256","kid":"test-key-1"}]}"#;

fn rsa_plugin(issuer: Option<&str>, audience: Option<&str>) -> JwtIdentityPlugin {
    let config = JwksConfig {
        url: String::new(),
        keys_json: Some(RSA_JWKS.to_owned()),
        issuer: issuer.map(str::to_owned),
        audience: audience.map(str::to_owned),
        header_name: "authorization".to_owned(),
        header_prefix: "Bearer ".to_owned(),
        allow_missing_audience: true,
    };
    match JwtVerifier::from_jwks_json(RSA_JWKS, &config) {
        Ok(v) => JwtIdentityPlugin::new(v),
        Err(e) => panic!("{e}"),
    }
}

#[test]
fn manifest_is_correct() {
    let plugin = rsa_plugin(Some("test-issuer"), Some("test-audience"));
    assert_eq!(plugin.id(), "dev.mcpg.identity.jwt");
}

#[test]
fn no_token_returns_no_token() {
    let plugin = rsa_plugin(None, None);
    let result = plugin.resolve_identity(&Vec::new());
    assert!(matches!(result, IdentityResolution::Unclaimed));
}

#[test]
fn invalid_token_returns_invalid() {
    let plugin = rsa_plugin(None, None);
    let headers = vec![("authorization".to_owned(), "Bearer not-a-real-jwt".to_owned())];
    let result = plugin.resolve_identity(&headers);
    assert!(matches!(result, IdentityResolution::Invalid { .. }));
}

#[test]
fn plugins_hand_on_who_the_token_names() {
    let plugin = JwtIdentityPlugin::new(checker(&prod_config()));
    let token = make_test_token(SECRET, valid_claims());
    let headers = vec![
        ("not a header".to_owned(), "x".to_owned()),
        ("Authorization".to_owned(), "Bearer stale".to_owned()),
        ("AUTHORIZATION".to_owned(), format!("Bearer {token}")),
    ];
    match plugin.resolve_identity(&headers) {
        IdentityResolution::Resolved { identity } => {
            assert_eq!(identity.kind, "verified");
            assert_eq!(identity.trust_level, "verified");
            assert_eq!(identity.subject_id.as_deref(), Some("user-42"));
            assert_eq!(identity.auth_provider.as_deref(), Some("jwt"));
            assert_eq!(identity.issuer.as_deref(), Some("test-issuer"));
            assert!(identity.roles.is_empty());
        }
        other => panic!("expected Resolved, got {other:?}"),
    }
}
