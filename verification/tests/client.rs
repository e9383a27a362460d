use base64::Engine;
use gcp_impersonation::client::{
    accept_access_token, accept_access_token_at, accept_id_token, accept_id_token_at,
    check_metadata_answer, encode_sa, expire_time_to_ttl, expire_time_to_ttl_at, id_token_ttl,
    id_token_ttl_at, invalidate_base, map_gcp_error, payload_of, read_reply, seconds_left,
    store_fetched, token_expiry, ttl_at, AccessTokenReply, BearerStep, BodyValue, CachedBaseToken,
    GcpClient, MetadataToken, PostIam, PostStep,
};
use gcp_impersonation::protocol::CredentialError;
use gcp_impersonation::BaseAuth;

const SA: &str = "svc@my-proj.iam.gserviceaccount.com";

#[test]
fn encode_sa_encodes_at_sign_only() {
    assert_eq!(
        encode_sa("svc@proj.iam.gserviceaccount.com"),
        "svc%40proj.iam.gserviceaccount.com"
    );
}

#[test]
fn encode_sa_escapes_every_reserved_byte() {
    assert_eq!(encode_sa("a/b:c%d?e#f g"), "a%2Fb%3Ac%25d%3Fe%23f%20g");
    assert_eq!(encode_sa("AZaz09-._~"), "AZaz09-._~");
    assert_eq!(encode_sa("\u{e9}\u{20ac}"), "%C3%A9%E2%82%AC");
    assert_eq!(encode_sa(""), "");
}

#[test]
fn expire_time_parses_future() {
    let future = chrono::Utc::now() + chrono::Duration::seconds(3600);
    let ttl = expire_time_to_ttl(&future.to_rfc3339()).unwrap();
    assert!((3590..=3600).contains(&ttl), "{ttl}");
}

#[test]
fn expire_time_past_clamps_to_one() {
    let past = chrono::Utc::now() - chrono::Duration::seconds(60);
    assert_eq!(expire_time_to_ttl(&past.to_rfc3339()).unwrap(), 1);
}

#[test]
fn expire_time_malformed_is_backend_error() {
    assert!(matches!(expire_time_to_ttl("not-a-time"), Err(CredentialError::Backend { .. })));
}

#[test]
fn expire_time_at_a_given_time() {
    assert_eq!(ttl_at("t", Ok(1_000), 400), Ok(600));
    assert_eq!(ttl_at("t", Ok(1_000), 1_000), Ok(1));
    assert_eq!(
        ttl_at("t", Err("why".into()), 0),
        Err(CredentialError::Backend { reason: "parse expireTime `t`: why".into() })
    );
    assert_eq!(seconds_left(i64::MAX, i64::MIN), u64::MAX);
    assert_eq!(seconds_left(i64::MIN, i64::MAX), 1);
}

fn base64_url(s: &str) -> String {
    base64::engine::general_purpose::URL_SAFE_NO_PAD.encode(s.as_bytes())
}

fn jwt(payload: &str) -> String {
    format!("eyJhbGciOiJSUzI1NiJ9.{}.sig", base64_url(payload))
}

#[test]
fn id_token_ttl_from_jwt_exp() {
    let exp = chrono::Utc::now().timestamp() + 3000;
    let payload = base64_url(&format!("{{\"exp\":{exp}}}"));
    let token = format!("eyJhbGciOiJSUzI1NiJ9.{payload}.sig");
    let ttl = id_token_ttl(&token, 3300);
    assert!((2990..=3000).contains(&ttl), "{ttl}");
}

#[test]
fn id_token_ttl_undecodable_uses_fallback() {
    assert_eq!(id_token_ttl("not.a.jwt", 1234), 1234);
    assert_eq!(id_token_ttl("only-one-segment", 999), 999);
}

#[test]
fn token_expiry_reads_the_payload() {
    assert_eq!(payload_of("a.b.c").as_deref(), Some("b"));
    assert_eq!(payload_of("a.b").as_deref(), Some("b"));
    assert_eq!(payload_of("a").as_deref(), None);
    assert_eq!(token_expiry(&jwt("{\"exp\":17,\"iat\":3}")), Some(17));
    assert_eq!(token_expiry(&jwt("{\"exp\":-4}")), Some(-4));
    assert_eq!(token_expiry(&jwt("{\"exp\":\"17\"}")), None);
    assert_eq!(token_expiry(&jwt("{\"exp\":1.5}")), None);
    assert_eq!(token_expiry(&jwt("[17]")), None);
    assert_eq!(token_expiry(&jwt("{")), None);
    assert_eq!(token_expiry("a.b+c=.d"), None);
    assert_eq!(id_token_ttl_at(Some(100), 40, 7), 60);
    assert_eq!(id_token_ttl_at(Some(40), 100, 7), 1);
    assert_eq!(id_token_ttl_at(None, 100, 7), 7);
}

#[test]
fn error_mapping_by_status_enum() {
    let perm = map_gcp_error(
        403,
        r#"{"error":{"code":403,"status":"PERMISSION_DENIED","message":"x"}}"#,
    );
    assert!(matches!(perm, CredentialError::NotAuthorized { .. }));

    let exhausted = map_gcp_error(429, r#"{"error":{"status":"RESOURCE_EXHAUSTED"}}"#);
    assert!(matches!(exhausted, CredentialError::Throttled { .. }));

    let bad = map_gcp_error(400, r#"{"error":{"status":"INVALID_ARGUMENT"}}"#);
    assert!(matches!(bad, CredentialError::Misconfigured { .. }));

    let nf = map_gcp_error(404, r#"{"error":{"status":"NOT_FOUND"}}"#);
    assert!(matches!(nf, CredentialError::Misconfigured { .. }));

    let internal = map_gcp_error(500, r#"{"error":{"status":"INTERNAL"}}"#);
    assert!(matches!(internal, CredentialError::Backend { .. }));
}

#[test]
fn error_mapping_falls_back_to_http_code() {
    // No parseable body: classify on HTTP status only.
    assert!(matches!(map_gcp_error(401, "<html>"), CredentialError::NotAuthorized { .. }));
    assert!(matches!(map_gcp_error(503, ""), CredentialError::Backend { .. }));
}

#[test]
fn error_mapping_never_leaks_message() {
    let err = map_gcp_error(
        403,
        r#"{"error":{"status":"PERMISSION_DENIED","message":"LEAKED_TOKEN_xyz789"}}"#,
    );
    let CredentialError::NotAuthorized { reason } = err else {
        panic!("expected NotAuthorized");
    };
    assert!(!reason.contains("LEAKED_TOKEN_xyz789"), "{reason}");
    assert!(reason.contains("PERMISSION_DENIED"));
}

#[test]
fn error_mapping_of_every_status_and_code() {
    let named = |status: &str| {
        map_gcp_error(299, &format!("{{\"error\":{{\"status\":\"{status}\"}}}}"))
    };
    for status in ["UNAUTHENTICATED", "PERMISSION_DENIED"] {
        assert_eq!(
            named(status),
            CredentialError::NotAuthorized {
                reason: format!("IAM Credentials returned HTTP 299 ({status})")
            }
        );
    }
    for status in ["INVALID_ARGUMENT", "FAILED_PRECONDITION", "NOT_FOUND"] {
        assert!(matches!(named(status), CredentialError::Misconfigured { .. }));
    }
    for status in ["UNAVAILABLE", "INTERNAL", "DEADLINE_EXCEEDED", "OTHER"] {
        assert!(matches!(named(status), CredentialError::Backend { .. }));
    }
    assert!(matches!(named("RESOURCE_EXHAUSTED"), CredentialError::Throttled { .. }));
    for code in 100u16..=599 {
        let reason = format!("IAM Credentials returned HTTP {code}");
        let expected = match code {
            401 | 403 => CredentialError::NotAuthorized { reason },
            429 => CredentialError::Throttled { reason },
            400..=499 => CredentialError::Misconfigured { reason },
            _ => CredentialError::Backend { reason },
        };
        assert_eq!(map_gcp_error(code, "{}"), expected);
    }
}

fn client(base: BaseAuth) -> GcpClient {
    GcpClient {
        iam_endpoint: "https://iam.example.com".into(),
        refresh_buffer_ms: 60_000,
        base,
    }
}

fn metadata_client() -> GcpClient {
    client(BaseAuth::MetadataServer {
        endpoint: "http://localhost:1//".into(),
        service_account: "default".into(),
    })
}

fn bearer_of(step: BearerStep) -> String {
    match step {
        BearerStep::Bearer(token) => token,
        BearerStep::Fetch { url } => panic!("fetch from {url}"),
    }
}

fn url_of(step: BearerStep) -> String {
    match step {
        BearerStep::Bearer(token) => panic!("have {token}"),
        BearerStep::Fetch { url } => url,
    }
}

const SECOND: u64 = 1_000_000_000;

#[test]
fn static_base_token_is_cached_for_good() {
    let c = client(BaseAuth::StaticAccessToken { access_token: "ya29.base".into() });
    let mut cache = None;
    assert_eq!(bearer_of(c.base_bearer(&mut cache, false, 5)), "ya29.base");
    assert_eq!(
        cache,
        Some(CachedBaseToken { token: "ya29.base".into(), expires_at_ns: None })
    );
    assert_eq!(bearer_of(c.base_bearer(&mut cache, false, u64::MAX)), "ya29.base");
    assert_eq!(bearer_of(c.base_bearer(&mut cache, true, 5)), "ya29.base");
}

#[test]
fn metadata_base_token_is_cached_until_the_refresh_buffer() {
    let c = metadata_client();
    let mut cache = None;
    let url = "http://localhost:1/computeMetadata/v1/instance/service-accounts/default/token";
    assert_eq!(url_of(c.base_bearer(&mut cache, false, 0)), url);
    let token = MetadataToken { access_token: "ya29.m".into(), expires_in: 3599 };
    assert_eq!(store_fetched(&mut cache, Ok(token), SECOND), Ok("ya29.m".to_owned()));
    assert_eq!(
        cache,
        Some(CachedBaseToken {
            token: "ya29.m".into(),
            expires_at_ns: Some(3600 * SECOND as u128)
        })
    );
    let edge = (3600 - 60) * SECOND;
    assert_eq!(bearer_of(c.base_bearer(&mut cache, false, edge - 1)), "ya29.m");
    assert_eq!(url_of(c.base_bearer(&mut cache, false, edge)), url);
    assert_eq!(url_of(c.base_bearer(&mut cache, true, 0)), url);
    invalidate_base(&mut cache);
    assert_eq!(cache, None);
    assert_eq!(url_of(c.base_bearer(&mut cache, false, 0)), url);
}

#[test]
fn metadata_token_without_lifetime_never_expires() {
    let c = metadata_client();
    let mut cache = None;
    let token = MetadataToken { access_token: "ya29.m".into(), expires_in: 0 };
    store_fetched(&mut cache, Ok(token), 1).unwrap();
    assert_eq!(bearer_of(c.base_bearer(&mut cache, false, u64::MAX)), "ya29.m");
}

#[test]
fn metadata_failures() {
    assert_eq!(check_metadata_answer(Ok(200)), Ok(()));
    assert_eq!(check_metadata_answer(Ok(299)), Ok(()));
    assert_eq!(
        check_metadata_answer(Ok(404)),
        Err(CredentialError::Backend { reason: "metadata server returned HTTP 404".into() })
    );
    assert_eq!(
        check_metadata_answer(Err("timeout".into())),
        Err(CredentialError::Backend { reason: "metadata server unreachable: timeout".into() })
    );
    let mut cache = Some(CachedBaseToken { token: "old".into(), expires_at_ns: Some(3) });
    assert_eq!(
        store_fetched(&mut cache, Err("no".into()), 9),
        Err(CredentialError::Backend { reason: "parse metadata token response: no".into() })
    );
    assert_eq!(
        cache,
        Some(CachedBaseToken { token: "old".into(), expires_at_ns: Some(3) })
    );
}

#[test]
fn a_stale_base_token_is_refreshed_once() {
    let c = metadata_client();
    let mut cache = Some(CachedBaseToken { token: "stale".into(), expires_at_ns: None });
    let mut post = PostIam::begin();
    assert_eq!(bearer_of(post.bearer(&c, &mut cache, 0)), "stale");
    assert!(matches!(post.answered(&mut cache, Ok(401)), PostStep::Retry));
    assert_eq!(cache, None);
    url_of(post.bearer(&c, &mut cache, 0));
    let token = MetadataToken { access_token: "fresh".into(), expires_in: 10 };
    assert_eq!(store_fetched(&mut cache, Ok(token), 0), Ok("fresh".to_owned()));
    assert!(matches!(post.answered(&mut cache, Ok(401)), PostStep::ReadBody { status: 401 }));
    assert_eq!(cache.unwrap().token, "fresh");
    assert_eq!(
        read_reply(401, Ok("".into())),
        Err(CredentialError::NotAuthorized {
            reason: "IAM Credentials returned HTTP 401".into()
        })
    );
}

#[test]
fn answers_and_bodies() {
    let mut cache = Some(CachedBaseToken { token: "t".into(), expires_at_ns: None });
    let mut post = PostIam::begin();
    assert!(matches!(post.answered(&mut cache, Ok(200)), PostStep::ReadBody { status: 200 }));
    assert!(matches!(post.answered(&mut cache, Ok(403)), PostStep::ReadBody { status: 403 }));
    match post.answered(&mut cache, Err("refused".into())) {
        PostStep::Failed(e) => assert_eq!(
            e,
            CredentialError::Backend {
                reason: "IAM Credentials endpoint unreachable: refused".into()
            }
        ),
        other => panic!("{other:?}"),
    }
    assert!(cache.is_some());
    assert_eq!(read_reply(200, Ok("{}".into())), Ok("{}".to_owned()));
    assert_eq!(
        read_reply(204, Err("cut".into())),
        Err(CredentialError::Backend { reason: "read IAM Credentials response: cut".into() })
    );
    assert_eq!(
        read_reply(429, Err("cut".into())),
        Err(CredentialError::Throttled { reason: "IAM Credentials returned HTTP 429".into() })
    );
}

#[test]
fn access_token_request() {
    let c = metadata_client();
    let scopes = vec!["s1".to_owned(), "s2".to_owned()];
    let bare = c.generate_access_token(SA, &scopes, None, &vec![]);
    assert_eq!(
        bare.url,
        "https://iam.example.com/v1/projects/-/serviceAccounts/svc%40my-proj.iam.gserviceaccount.com:generateAccessToken"
    );
    assert_eq!(bare.body.len(), 1);
    assert_eq!(bare.body.get("scope"), Some(&BodyValue::List(scopes.clone())));
    let full = c.generate_access_token(
        SA,
        &scopes,
        Some(3600),
        &vec![
            "mid@my-proj.iam.gserviceaccount.com".to_owned(),
            "projects/-/serviceAccounts/end@my-proj.iam.gserviceaccount.com".to_owned(),
        ],
    );
    assert_eq!(full.body.len(), 3);
    assert_eq!(full.body.get("lifetime"), Some(&BodyValue::Text("3600s".into())));
    assert_eq!(
        full.body.get("delegates"),
        Some(&BodyValue::List(vec![
            "projects/-/serviceAccounts/mid@my-proj.iam.gserviceaccount.com".into(),
            "projects/-/serviceAccounts/end@my-proj.iam.gserviceaccount.com".into(),
        ]))
    );
}

#[test]
fn id_token_request() {
    let c = metadata_client();
    let r = c.generate_id_token(SA, "https://svc.example.com", true, &vec![]);
    assert_eq!(
        r.url,
        "https://iam.example.com/v1/projects/-/serviceAccounts/svc%40my-proj.iam.gserviceaccount.com:generateIdToken"
    );
    assert_eq!(r.body.len(), 2);
    assert_eq!(
        r.body.get("audience"),
        Some(&BodyValue::Text("https://svc.example.com".into()))
    );
    assert_eq!(r.body.get("includeEmail"), Some(&BodyValue::Flag(true)));
}

#[test]
fn replies() {
    let reply = AccessTokenReply {
        access_token: "ya29.x".into(),
        expire_time: "2001-01-01T00:00:00Z".into(),
    };
    let issued = accept_access_token(Ok(reply)).unwrap();
    assert_eq!(issued.token, "ya29.x");
    assert_eq!(issued.ttl_seconds, 1);
    assert_eq!(
        accept_access_token(Err("missing".into())),
        Err(CredentialError::Backend {
            reason: "parse generateAccessToken response: missing".into()
        })
    );
    let bad = AccessTokenReply { access_token: "ya29.x".into(), expire_time: "soon".into() };
    match accept_access_token(Ok(bad)) {
        Err(CredentialError::Backend { reason }) => {
            assert!(reason.starts_with("parse expireTime `soon`: "), "{reason}");
            assert!(reason.len() > "parse expireTime `soon`: ".len());
        }
        other => panic!("{other:?}"),
    }
    assert_eq!(
        accept_id_token(Err("missing".into()), 5),
        Err(CredentialError::Backend {
            reason: "parse generateIdToken response: missing".into()
        })
    );
    let reply = AccessTokenReply {
        access_token: "ya29.x".into(),
        expire_time: "1970-01-01T00:01:40Z".into(),
    };
    assert_eq!(accept_access_token_at(Ok(reply), 40).unwrap().ttl_seconds, 60);
    assert_eq!(expire_time_to_ttl_at("1970-01-01T00:01:40Z", 99), Ok(1));
    assert_eq!(accept_id_token_at(Ok(jwt("{\"exp\":70}")), 5, 40).unwrap().ttl_seconds, 30);
    assert_eq!(accept_id_token_at(Ok("opaque".into()), 5, 40).unwrap().ttl_seconds, 5);
    let issued = accept_id_token(Ok("opaque".into()), 5).unwrap();
    assert_eq!(issued.token, "opaque");
    assert_eq!(issued.ttl_seconds, 5);
}
