use oauth_core::codes::{AuthorizerError, CodeStore};
use oauth_core::issuer::TokenIssuer;
use oauth_core::registry::{Client, RegistrarError, Registry};
use oauth_core::scope::scope_within_exec;
use oauth_core::state::{Settings, StartupError, State};
use oauth_core::token::{decode, encode, Claims, IssuerError, TokenKind};

const NOW: u64 = 1_000_000;

fn settings(secret: Option<&str>) -> Settings {
    Settings {
        client_id: "app1".to_string(),
        client_secret: secret.map(|s| s.to_string()),
        redirect_uri: "https://app.example/cb".to_string(),
        additional_redirect_uris: vec![],
        signing_key: b"server signing key".to_vec(),
        issuer_name: "auth.example".to_string(),
        access_ttl: 3600,
        refresh_ttl: 86400,
        code_lifetime: 600,
    }
}

#[test]
fn scenario_authorize_exchange_validate() {
    let mut st = State::new(&settings(Some("s3cret"))).unwrap();
    let client = st
        .registrar
        .validate("app1", "https://app.example/cb", Some(b"s3cret"))
        .unwrap();
    assert_eq!(client.client_id, "app1");
    let code = st
        .authorizer
        .issue("app1".to_string(), "https://app.example/cb".to_string(), "read".to_string(), NOW)
        .unwrap();
    let grant = st.authorizer.consume(code, NOW + 1).unwrap();
    assert_eq!(grant.client_id, "app1");
    assert_eq!(grant.redirect_uri, "https://app.example/cb");
    assert_eq!(grant.scope, "read");
    assert_eq!(grant.issued_at, NOW);
    assert_eq!(grant.expires_at, NOW + 600);
    assert_eq!(st.authorizer.consume(code, NOW + 2).unwrap_err(), AuthorizerError::AlreadyConsumed);
    let tok = st
        .issuer
        .issue(grant.client_id.as_bytes(), grant.scope.as_bytes(), NOW + 2, 7, 8);
    assert_eq!(tok.expires_in, 3600);
    assert_eq!(tok.token_type(), "bearer");
    assert_eq!(tok.client_id, b"app1".to_vec());
    let claims = st.issuer.validate(&tok.access_token, NOW + 3).unwrap();
    assert_eq!(claims.sub, b"app1".to_vec());
    assert_eq!(claims.scope, b"read".to_vec());
    assert_eq!(claims.kind, TokenKind::Access);
    assert_eq!(claims.issued_at, NOW + 2);
    assert_eq!(claims.expires_at, NOW + 2 + 3600);
    assert_eq!(claims.token_id, 7);
    assert_eq!(claims.iss, b"auth.example".to_vec());
    assert_eq!(st.issuer.name(), b"auth.example");
}

#[test]
fn confidential_client_needs_its_secret() {
    let st = State::new(&settings(Some("s3cret"))).unwrap();
    assert!(st.registrar.validate("app1", "https://app.example/cb", Some(b"s3cret")).is_ok());
    assert_eq!(
        st.registrar.validate("app1", "https://app.example/cb", None).unwrap_err(),
        RegistrarError::BadSecret
    );
    assert_eq!(
        st.registrar.validate("app1", "https://app.example/cb", Some(b"s3creT")).unwrap_err(),
        RegistrarError::BadSecret
    );
}

#[test]
fn one_character_mutations_of_the_secret_fail() {
    let st = State::new(&settings(Some("s3cret"))).unwrap();
    for bad in [&b"a3cret"[..], &b"s3cre"[..], &b"s3crett"[..]] {
        assert_eq!(
            st.registrar.validate("app1", "https://app.example/cb", Some(bad)).unwrap_err(),
            RegistrarError::BadSecret
        );
    }
}

#[test]
fn redirect_must_match_exactly() {
    let st = State::new(&settings(None)).unwrap();
    assert!(st.registrar.validate("app1", "https://app.example/cb", None).is_ok());
    assert_eq!(
        st.registrar.validate("app1", "https://app.example/cb/more", None).unwrap_err(),
        RegistrarError::RedirectMismatch
    );
    assert_eq!(
        st.registrar.validate("app1", "https://app.example/c", None).unwrap_err(),
        RegistrarError::RedirectMismatch
    );
    assert_eq!(
        st.registrar.validate("app2", "https://app.example/cb", None).unwrap_err(),
        RegistrarError::UnknownClient
    );
}

#[test]
fn public_client_rejects_a_secret() {
    let st = State::new(&settings(None)).unwrap();
    assert_eq!(
        st.registrar.validate("app1", "https://app.example/cb", Some(b"x")).unwrap_err(),
        RegistrarError::UnexpectedSecret
    );
    assert!(st.registrar.validate("app1", "https://app.example/cb", Some(b"")).is_ok());
}

#[test]
fn additional_redirects_are_parsed_leniently() {
    let mut s = settings(None);
    s.additional_redirect_uris = vec![
        "https://other.example/cb".to_string(),
        "not a url".to_string(),
        "HTTPS://Third.Example/cb".to_string(),
    ];
    let st = State::new(&s).unwrap();
    let c = st.registrar.lookup("app1").unwrap();
    assert_eq!(
        c.additional_redirect_uris,
        vec!["https://other.example/cb".to_string(), "https://third.example/cb".to_string()]
    );
    assert!(st.registrar.validate("app1", "https://other.example/cb", None).is_ok());
    assert!(st.registrar.lookup("nobody").is_none());
}

#[test]
fn redirect_uri_is_stored_in_normal_form() {
    let mut s = settings(None);
    s.redirect_uri = "HTTPS://App.Example".to_string();
    let st = State::new(&s).unwrap();
    assert_eq!(st.registrar.lookup("app1").unwrap().redirect_uri, "https://app.example/");
    assert_eq!(st.registrar.lookup("app1").unwrap().default_scope, "default-scope");
}

#[test]
fn startup_fails_on_a_bad_redirect_uri() {
    let mut s = settings(None);
    s.redirect_uri = "no url at all".to_string();
    assert_eq!(State::new(&s).err().unwrap(), StartupError::InvalidRedirectUri);
    s.redirect_uri = "/relative/path".to_string();
    assert_eq!(State::new(&s).err().unwrap(), StartupError::InvalidRedirectUri);
}

#[test]
fn duplicate_client_is_refused() {
    let mut reg = Registry::new();
    let a = Client::public("c".to_string(), "https://a.example/".to_string(), "s".to_string());
    let b = Client::public("c".to_string(), "https://b.example/".to_string(), "s".to_string());
    assert!(reg.register(a).is_ok());
    assert_eq!(reg.register(b).unwrap_err(), RegistrarError::DuplicateClient);
    assert_eq!(reg.lookup("c").unwrap().redirect_uri, "https://a.example/");
}

#[test]
fn expired_code_fails_even_unconsumed() {
    let mut store = CodeStore::new(600);
    assert!(store.issue_with_code(42, "a".to_string(), "https://a.example/".to_string(), "r".to_string(), NOW));
    assert_eq!(store.consume(42, NOW + 600).unwrap_err(), AuthorizerError::Expired);
    assert!(!store.contains(42));
    assert_eq!(store.consume(42, NOW + 1).unwrap_err(), AuthorizerError::UnknownCode);
}

#[test]
fn code_consumed_once_then_already_consumed() {
    let mut store = CodeStore::new(600);
    assert!(store.issue_with_code(5, "a".to_string(), "https://a.example/".to_string(), "r".to_string(), NOW));
    assert!(!store.issue_with_code(5, "b".to_string(), "https://b.example/".to_string(), "r".to_string(), NOW));
    assert_eq!(store.consume(5, NOW + 599).unwrap().client_id, "a");
    assert_eq!(store.consume(5, NOW + 599).unwrap_err(), AuthorizerError::AlreadyConsumed);
    assert_eq!(store.consume(5, NOW + 600).unwrap_err(), AuthorizerError::Expired);
    assert_eq!(store.consume(6, NOW).unwrap_err(), AuthorizerError::UnknownCode);
}

#[test]
fn random_codes_are_distinct() {
    let mut store = CodeStore::new(600);
    let a = store.issue("a".to_string(), "https://a.example/".to_string(), "r".to_string(), NOW).unwrap();
    let b = store.issue("a".to_string(), "https://a.example/".to_string(), "r".to_string(), NOW).unwrap();
    assert_ne!(a, b);
    assert!(store.contains(a) && store.contains(b));
}

fn issuer() -> TokenIssuer {
    TokenIssuer::new(b"key".to_vec(), b"iss".to_vec(), 100, 1000)
}

#[test]
fn token_valid_until_expiry() {
    let iss = issuer();
    let t = iss.issue(b"client", b"read write", NOW, 1, 2);
    assert!(iss.validate(&t.access_token, NOW).is_ok());
    assert!(iss.validate(&t.access_token, NOW + 99).is_ok());
    assert_eq!(iss.validate(&t.access_token, NOW + 100).unwrap_err(), IssuerError::Expired);
    assert_eq!(iss.validate(&t.access_token, NOW + 5000).unwrap_err(), IssuerError::Expired);
}

#[test]
fn zero_refresh_lifetime_gives_no_refresh_token() {
    let iss = TokenIssuer::new(b"key".to_vec(), b"iss".to_vec(), 100, 0);
    let t = iss.issue(b"client", b"read", NOW, 1, 2);
    assert!(t.refresh_token.is_none());
    assert!(issuer().issue(b"client", b"read", NOW, 1, 2).refresh_token.is_some());
}

#[test]
fn expiry_saturates() {
    let iss = issuer();
    let t = iss.issue(b"client", b"read", u64::MAX - 10, 1, 2);
    assert_eq!(t.expires_in, 10);
    let c = iss.validate(&t.access_token, u64::MAX - 1).unwrap();
    assert_eq!(c.expires_at, u64::MAX);
}

#[test]
fn tampering_any_byte_fails_signature() {
    let iss = issuer();
    let t = iss.issue(b"client", b"read", NOW, 1, 2).access_token;
    for i in 0..t.len() {
        let mut bad = t.clone();
        bad[i] ^= 0x01;
        assert_eq!(iss.validate(&bad, NOW).unwrap_err(), IssuerError::BadSignature, "byte {}", i);
    }
}

#[test]
fn other_key_fails_signature() {
    let t = issuer().issue(b"client", b"read", NOW, 1, 2).access_token;
    let other = TokenIssuer::new(b"other".to_vec(), b"iss".to_vec(), 100, 1000);
    assert_eq!(other.validate(&t, NOW).unwrap_err(), IssuerError::BadSignature);
}

#[test]
fn short_token_is_malformed() {
    assert_eq!(issuer().validate(b"short", NOW).unwrap_err(), IssuerError::Malformed);
}

#[test]
fn signed_garbage_is_malformed() {
    let payload = vec![9u8; 40];
    let key = ring::hmac::Key::new(ring::hmac::HMAC_SHA256, b"key");
    let mut tok = payload.clone();
    tok.extend_from_slice(ring::hmac::sign(&key, &payload).as_ref());
    assert_eq!(issuer().validate(&tok, NOW).unwrap_err(), IssuerError::Malformed);
}

#[test]
fn tag_is_hmac_sha256_of_the_claims() {
    let iss = issuer();
    let c = Claims {
        kind: TokenKind::Access,
        sub: b"client".to_vec(),
        iss: b"iss".to_vec(),
        scope: b"read".to_vec(),
        issued_at: 1,
        expires_at: 2,
        token_id: 3,
    };
    let tok = iss.sign(&c);
    let payload = encode(&c);
    let key = ring::hmac::Key::new(ring::hmac::HMAC_SHA256, b"key");
    assert_eq!(&tok[..payload.len()], &payload[..]);
    assert_eq!(&tok[payload.len()..], ring::hmac::sign(&key, &payload).as_ref());
}

#[test]
fn claims_encoding_round_trips() {
    let c = Claims {
        kind: TokenKind::Refresh,
        sub: b"client".to_vec(),
        iss: b"issuer".to_vec(),
        scope: b"a b".to_vec(),
        issued_at: 0x0102030405060708,
        expires_at: u64::MAX,
        token_id: 0,
    };
    let b = encode(&c);
    assert_eq!(b.len(), 41 + 6 + 6 + 3);
    assert_eq!(&b[25..33], &[6, 0, 0, 0, 0, 0, 0, 0]);
    assert_eq!(&b[41..47], b"client");
    assert_eq!(&b[47..53], b"issuer");
    assert_eq!(&b[53..], b"a b");
    assert_eq!(b[0], 1);
    assert_eq!(&b[1..9], &[8, 7, 6, 5, 4, 3, 2, 1]);
    let d = decode(&b).unwrap();
    assert_eq!(d.kind, TokenKind::Refresh);
    assert_eq!(d.sub, c.sub);
    assert_eq!(d.scope, c.scope);
    assert_eq!(d.iss, c.iss);
    assert_eq!(d.issued_at, c.issued_at);
    assert_eq!(d.expires_at, c.expires_at);
    assert_eq!(d.token_id, 0);
    assert!(decode(&b[..40]).is_none());
    let mut bad_len = b.clone();
    bad_len[33] = 200;
    assert!(decode(&bad_len).is_none());
    let mut bad_kind = b.clone();
    bad_kind[0] = 2;
    assert!(decode(&bad_kind).is_none());
}

#[test]
fn refresh_within_scope() {
    let iss = issuer();
    let t = iss.issue(b"client", b"read write", NOW, 1, 2);
    let rt = t.refresh_token.unwrap();
    let n = iss.refresh(&rt, b"read", NOW + 500, 3).unwrap();
    assert!(n.refresh_token.is_none());
    let c = iss.validate(&n.access_token, NOW + 500).unwrap();
    assert_eq!(c.sub, b"client".to_vec());
    assert_eq!(c.scope, b"read".to_vec());
    assert_eq!(c.token_id, 3);
    assert!(iss.refresh(&rt, b"write read", NOW + 500, 4).is_ok());
}

#[test]
fn refresh_beyond_scope_escalates() {
    let iss = issuer();
    let rt = iss.issue(b"client", b"read", NOW, 1, 2).refresh_token.unwrap();
    assert_eq!(iss.refresh(&rt, b"read write", NOW, 3).unwrap_err(), IssuerError::ScopeEscalation);
    assert_eq!(iss.refresh(&rt, b"rea", NOW, 3).unwrap_err(), IssuerError::ScopeEscalation);
    assert_eq!(iss.refresh(&rt, b"read", NOW + 1000, 3).unwrap_err(), IssuerError::Expired);
}

#[test]
fn access_token_cannot_refresh() {
    let iss = issuer();
    let at = iss.issue(b"client", b"read", NOW, 1, 2).access_token;
    assert_eq!(iss.refresh(&at, b"read", NOW, 3).unwrap_err(), IssuerError::Malformed);
}

#[test]
fn scope_subset_by_tokens() {
    assert!(scope_within_exec(b"read", b"write read"));
    assert!(scope_within_exec(b"  read  ", b"read"));
    assert!(scope_within_exec(b"", b"read"));
    assert!(!scope_within_exec(b"rea", b"read"));
    assert!(!scope_within_exec(b"read", b"reading"));
    assert!(!scope_within_exec(b"read admin", b"read write"));
}

#[test]
fn fresh_issue_uses_random_ids() {
    let iss = issuer();
    let a = iss.issue_fresh(b"client", b"read", NOW).unwrap();
    let b = iss.issue_fresh(b"client", b"read", NOW).unwrap();
    assert_ne!(a.access_token, b.access_token);
    assert!(iss.validate(&a.access_token, NOW).is_ok());
    let r = iss.refresh_fresh(&a.refresh_token.unwrap(), b"read", NOW).unwrap();
    assert!(r.is_ok());
}
