use base64::Engine;
use gcp_impersonation::client::{
    read_reply, store_fetched, AccessTokenReply, BearerStep, BodyValue, IssuedToken, MetadataToken,
    PostIam, PostStep,
};
use gcp_impersonation::config::{BaseAuthDocument, ConfigDocument, TargetDocument};
use gcp_impersonation::name_map::{Entry, NameMap};
use gcp_impersonation::plugin::{
    assemble, cap_ttl_seconds, finish, finish_access_token, finish_access_token_at, finish_at,
    finish_id_token, finish_id_token_at, load_refusal_message, now_rfc3339, path_root,
    sanitize_subject, DecodedReply, Refusal, PLUGIN_ID,
};
use gcp_impersonation::protocol::{CredentialError, PluginClass, PluginIdentity};
use gcp_impersonation::{ConfigError, GcpImpersonationPlugin, IdentityMapping, TokenKind};

const SA: &str = "svc@my-proj.iam.gserviceaccount.com";

fn cap_ttl(secs: u64, ms: u64) -> u64 {
    cap_ttl_seconds(secs, ms)
}

#[test]
fn cap_ttl_clamps_and_floors() {
    assert_eq!(cap_ttl(3600, 60_000), 60);
    assert_eq!(cap_ttl(45, 3_600_000), 45);
    assert_eq!(cap_ttl(3600, 500), 1);
}

#[test]
fn cap_ttl_edges() {
    assert_eq!(cap_ttl(3600, 0), 1);
    assert_eq!(cap_ttl(0, 60_000), 0);
    assert_eq!(cap_ttl(3600, 1999), 1);
    assert_eq!(cap_ttl(3600, 2000), 2);
    assert_eq!(cap_ttl(u64::MAX, u64::MAX), u64::MAX / 1000);
}

fn identity(trust: &str, subject: &str) -> PluginIdentity {
    PluginIdentity {
        kind: trust.into(),
        trust_level: trust.into(),
        subject_id: Some(subject.into()),
        auth_provider: Some("okta".into()),
        issuer: Some("https://okta.example.com".into()),
        roles: vec![],
        groups: vec![],
        scopes: vec![],
        attributes: NameMap::new(),
    }
}

fn target() -> TargetDocument {
    TargetDocument {
        token_kind: None,
        service_account: Some(SA.into()),
        identity_mapping: None,
        service_account_template: None,
        allowed_service_accounts: None,
        scopes: Some(vec!["https://www.googleapis.com/auth/cloud-platform".into()]),
        lifetime_seconds: None,
        allow_extended_lifetime: None,
        audience: None,
        include_email: None,
        id_token_assumed_ttl_seconds: None,
        delegates: None,
        max_cache_ttl_ms: None,
    }
}

fn document(name: &str, target: TargetDocument) -> ConfigDocument {
    ConfigDocument {
        base_auth: Some(BaseAuthDocument::StaticAccessToken { access_token: "ya29.base".into() }),
        iam_credentials_endpoint: None,
        connect_timeout_ms: None,
        operation_timeout_ms: None,
        refresh_buffer_ms: None,
        targets: vec![Entry { name: name.into(), value: target }],
    }
}

fn load(decoded: Result<ConfigDocument, String>) -> GcpImpersonationPlugin {
    GcpImpersonationPlugin::from_config_json(decoded, "1.2.3", "issuer::plugin")
        .unwrap_or_else(|e| panic!("{}", load_refusal_message(&e)))
}

fn plugin(document: ConfigDocument) -> GcpImpersonationPlugin {
    load(Ok(document))
}

fn static_subject_plugin(allowed: Option<Vec<&str>>) -> GcpImpersonationPlugin {
    let mut t = target();
    t.identity_mapping = Some(IdentityMapping::SubjectId);
    t.allowed_service_accounts =
        allowed.map(|list| list.into_iter().map(str::to_owned).collect());
    plugin(document("t", t))
}

fn refused(p: &GcpImpersonationPlugin, id: &PluginIdentity, target: &str) -> CredentialError {
    match p.authorize(id, target) {
        Ok(grant) => panic!("granted {grant:?}"),
        Err(refusal) => refusal.error(),
    }
}

#[test]
fn from_config_json_succeeds() {
    let p = static_subject_plugin(None);
    assert_eq!(p.manifest().id, PLUGIN_ID);
    assert_eq!(p.manifest().plugin_class, PluginClass::CredentialIssuer);
}

#[test]
fn manifest_of_the_plugin() {
    let p = static_subject_plugin(None);
    let m = p.manifest();
    assert_eq!(m.id, "dev.mcpg.credential.gcp-impersonation");
    assert_eq!(m.version, "1.2.3");
    assert_eq!(m.name, "GCP Service-Account Impersonation");
    assert_eq!(m.protocol_version, "1.0");
    assert_eq!(m.module_path_prefix, "issuer");
    assert!(m.tags.is_empty() && m.provides.is_empty() && m.provides_schemes.is_empty());
    assert_eq!(path_root("a:b"), "a:b");
    assert_eq!(path_root("a:::b::c"), "a");
    assert_eq!(path_root("::a"), "");
    assert_eq!(path_root(""), "");
}

#[test]
#[should_panic(expected = "gcp-impersonation config parse failed")]
fn malformed_config_panics() {
    let e = serde_json::from_str::<serde_json::Value>("{ not json").unwrap_err();
    load(Err(e.to_string()));
}

#[test]
#[should_panic(expected = "gcp-impersonation config parse failed")]
fn empty_targets_panics() {
    let mut d = document("t", target());
    d.base_auth = Some(BaseAuthDocument::StaticAccessToken { access_token: "t".into() });
    d.targets.clear();
    plugin(d);
}

#[test]
fn a_faulty_configuration_makes_no_plugin() {
    let mut d = document("t", target());
    d.targets.clear();
    let e = GcpImpersonationPlugin::from_config_json(Ok(d), "v", "m").unwrap_err();
    assert_eq!(e, ConfigError::EmptyTargets);
    assert_eq!(
        load_refusal_message(&e),
        "gcp-impersonation config parse failed: credential.gcp-impersonation: targets must be non-empty. A misconfigured credential issuer is a security hole; refusing to load."
    );
}

#[test]
fn issue_rejects_identity_derived_sa_from_unverified_caller() {
    let p = static_subject_plugin(None);
    let err = refused(
        &p,
        &identity("header_asserted", "other@my-proj.iam.gserviceaccount.com"),
        "t",
    );
    assert!(
        matches!(err, CredentialError::NotAuthorized { ref reason } if reason.contains("Verified trust")),
        "{err:?}"
    );
}

#[test]
fn issue_rejects_non_sa_subject() {
    let p = static_subject_plugin(None);
    let err = refused(&p, &identity("verified", "not-an-email"), "t");
    assert!(
        matches!(err, CredentialError::NotAuthorized { ref reason } if reason.contains("service-account email")),
        "{err:?}"
    );
}

#[test]
fn issue_rejects_sa_outside_allowlist() {
    let p = static_subject_plugin(Some(vec!["only@my-proj.iam.gserviceaccount.com"]));
    let err = refused(
        &p,
        &identity("verified", "other@my-proj.iam.gserviceaccount.com"),
        "t",
    );
    assert!(
        matches!(err, CredentialError::NotAuthorized { ref reason } if reason.contains("allowed_service_accounts")),
        "{err:?}"
    );
}

#[test]
fn issue_rejects_unknown_target() {
    let p = static_subject_plugin(None);
    let err = refused(&p, &identity("verified", SA), "nope");
    assert!(matches!(err, CredentialError::Misconfigured { .. }), "{err:?}");
    assert_eq!(err, CredentialError::Misconfigured { reason: "unknown target: nope".into() });
}

#[test]
fn revoke_is_noop_ok() {
    let p = static_subject_plugin(None);
    assert!(p.revoke("any").is_ok());
}

#[test]
fn operator_fixed_accounts_are_exempt() {
    let only = Some(vec!["only@my-proj.iam.gserviceaccount.com".to_owned()]);
    let mut t = target();
    t.allowed_service_accounts = only.clone();
    let p = plugin(document("t", t));
    let caller = identity("anonymous", "whoever");
    assert_eq!(p.authorize(&caller, "t").unwrap().service_account, SA);

    let mut t = target();
    t.identity_mapping = Some(IdentityMapping::SubjectId);
    t.allowed_service_accounts = only;
    let p = plugin(document("t", t));
    let mut nobody = identity("anonymous", "");
    nobody.subject_id = None;
    assert_eq!(p.authorize(&nobody, "t").unwrap().service_account, SA);
}

#[test]
fn listed_account_of_a_trusted_caller_is_granted() {
    let other = "other@my-proj.iam.gserviceaccount.com";
    let p = static_subject_plugin(Some(vec![SA, other]));
    let grant = p.authorize(&identity("verified", other), "t").unwrap();
    assert_eq!(grant.service_account, other);
}

#[test]
fn refusals_say_why_and_are_counted() {
    let said = [
        (
            Refusal::UntrustedIdentity { trust_level: "low".into() },
            "identity-derived service account requires Verified trust; caller trust is `low`",
            "untrusted_identity",
        ),
        (
            Refusal::InvalidServiceAccount,
            "resolved value is not a valid service-account email",
            "invalid_service_account",
        ),
        (
            Refusal::NotAllowed,
            "resolved service account is not in this target's allowed_service_accounts",
            "sa_not_allowed",
        ),
        (Refusal::EmptyIdentity { reason: "none".into() }, "none", "empty_identity"),
        (
            Refusal::SubstitutionFailed { field: "roles[3]".into() },
            "identity template substitution failed: field `roles[3]` is None or out-of-bounds",
            "substitution_failed",
        ),
    ];
    for (refusal, text, label) in said {
        assert_eq!(refusal.error(), CredentialError::NotAuthorized { reason: text.into() });
        assert_eq!(refusal.label(), Some(label));
    }
    assert_eq!(Refusal::UnknownTarget { name: "x".into() }.label(), None);
}

#[test]
fn refusals_of_empty_and_unresolved_identities() {
    let mut t = target();
    t.identity_mapping = Some(IdentityMapping::FromRole);
    t.service_account = None;
    let p = plugin(document("t", t));
    assert!(matches!(
        p.authorize(&identity("verified", "x"), "t"),
        Err(Refusal::EmptyIdentity { .. })
    ));

    let mut t = target();
    t.identity_mapping = Some(IdentityMapping::Template);
    t.service_account_template = Some("${roles[0]}@my-proj.iam.gserviceaccount.com".into());
    let p = plugin(document("t", t));
    match p.authorize(&identity("verified", "x"), "t") {
        Err(Refusal::SubstitutionFailed { field }) => assert_eq!(field, "roles[0]"),
        other => panic!("{other:?}"),
    }
}

#[test]
fn subjects_become_labels() {
    assert_eq!(sanitize_subject("al\u{0}i\nce\u{7f}\u{9f}\u{a0}"), "alice\u{a0}");
    assert_eq!(sanitize_subject(""), "");
    let long = "\u{e9}\t".repeat(300);
    assert_eq!(sanitize_subject(&long), "\u{e9}".repeat(256));
    assert_eq!(sanitize_subject(&"x".repeat(256)), "x".repeat(256));
}

#[test]
fn exactly_the_control_characters_are_dropped() {
    for c in '\u{0}'..=char::MAX {
        let s = c.to_string();
        let kept = sanitize_subject(&s);
        if c.is_control() {
            assert_eq!(kept, "");
        } else {
            assert_eq!(kept, s);
        }
    }
}

fn static_access_plugin() -> GcpImpersonationPlugin {
    let mut t = target();
    t.lifetime_seconds = Some(3600);
    let mut d = document("t", t);
    d.iam_credentials_endpoint = Some("http://127.0.0.1:9/".into());
    plugin(d)
}

#[test]
fn generate_access_token_happy_path() {
    let p = static_access_plugin();
    let caller = identity("verified", "alice");
    let grant = p.authorize(&caller, "t").unwrap();
    let request = p.request(&grant);
    assert_eq!(
        request.url,
        "http://127.0.0.1:9/v1/projects/-/serviceAccounts/svc%40my-proj.iam.gserviceaccount.com:generateAccessToken"
    );
    assert_eq!(request.body.get("lifetime"), Some(&BodyValue::Text("3600s".into())));
    assert_eq!(
        request.body.get("scope"),
        Some(&BodyValue::List(vec!["https://www.googleapis.com/auth/cloud-platform".into()]))
    );
    let mut cache = None;
    let mut post = PostIam::begin();
    match post.bearer(&p.client, &mut cache, 0) {
        BearerStep::Bearer(token) => assert_eq!(token, "ya29.base"),
        other => panic!("{other:?}"),
    }
    assert!(matches!(post.answered(&mut cache, Ok(200)), PostStep::ReadBody { status: 200 }));
    let expire = (chrono::Utc::now() + chrono::Duration::seconds(3600)).to_rfc3339();
    let reply = AccessTokenReply { access_token: "ya29.impersonated".into(), expire_time: expire };
    let cred = finish_access_token(&grant, &caller, Ok(reply)).unwrap();
    assert_eq!(cred.value.as_deref(), Some("ya29.impersonated"));
    assert_eq!(
        cred.parts.get("access_token").map(String::as_str),
        Some("ya29.impersonated")
    );
    assert_eq!(cred.parts.len(), 1);
    assert!(cred.lease_id.is_none());
    assert!((3590..=3600).contains(&cred.ttl_seconds), "{}", cred.ttl_seconds);
    assert_eq!(cred.metadata.get("gcp.service_account").map(String::as_str), Some(SA));
    assert_eq!(
        cred.metadata.get("gcp.token_kind").map(String::as_str),
        Some("access_token")
    );
    assert_eq!(cred.metadata.get("gcp.caller_subject").map(String::as_str), Some("alice"));
    assert!(chrono::DateTime::parse_from_rfc3339(&cred.issued_at).is_ok());
}

#[test]
fn generate_id_token_happy_path() {
    let exp = chrono::Utc::now().timestamp() + 3000;
    let payload = base64::engine::general_purpose::URL_SAFE_NO_PAD
        .encode(format!("{{\"exp\":{exp}}}").as_bytes());
    let jwt = format!("eyJhbGciOiJSUzI1NiJ9.{payload}.sig");
    let mut t = target();
    t.scopes = None;
    t.token_kind = Some(TokenKind::IdToken);
    t.audience = Some("https://svc.example.com".into());
    let p = plugin(document("idt", t));
    let caller = identity("verified", "alice");
    let grant = p.authorize(&caller, "idt").unwrap();
    let request = p.request(&grant);
    assert!(request.url.ends_with(":generateIdToken"));
    assert_eq!(
        request.body.get("audience"),
        Some(&BodyValue::Text("https://svc.example.com".into()))
    );
    assert_eq!(request.body.get("includeEmail"), Some(&BodyValue::Flag(true)));
    let cred = finish_id_token(&grant, &caller, Ok(jwt)).unwrap();
    assert!(cred.value.as_deref().unwrap().starts_with("eyJ"));
    assert_eq!(cred.metadata.get("gcp.token_kind").map(String::as_str), Some("id_token"));
    assert!(cred.metadata.get("gcp.scopes").is_none());
    assert!((2990..=3000).contains(&cred.ttl_seconds), "{}", cred.ttl_seconds);
    let opaque = finish_id_token(&grant, &caller, Ok("opaque".into())).unwrap();
    assert_eq!(opaque.ttl_seconds, 3300);
    assert!(finish_id_token(&grant, &caller, Err("bad".into())).is_err());
}

#[test]
fn permission_denied_maps_not_authorized_and_redacts() {
    let body = r#"{"error":{"code":403,"status":"PERMISSION_DENIED","message":"LEAKED_TOKEN_abc denied"}}"#;
    let err = read_reply(403, Ok(body.into())).unwrap_err();
    let CredentialError::NotAuthorized { reason } = err else {
        panic!("expected NotAuthorized, got {err:?}");
    };
    assert!(reason.contains("PERMISSION_DENIED"));
    assert!(!reason.contains("LEAKED_TOKEN_abc"), "message leaked: {reason}");
}

#[test]
fn resource_exhausted_maps_throttled() {
    let body = r#"{"error":{"status":"RESOURCE_EXHAUSTED"}}"#;
    let err = read_reply(429, Ok(body.into())).unwrap_err();
    assert!(matches!(err, CredentialError::Throttled { .. }), "{err:?}");
}

#[test]
fn delegates_serialized_when_present() {
    let mut t = target();
    t.scopes = Some(vec!["s".into()]);
    t.delegates = Some(vec!["mid@my-proj.iam.gserviceaccount.com".into()]);
    let p = plugin(document("t", t));
    let grant = p.authorize(&identity("verified", "alice"), "t").unwrap();
    assert_eq!(
        p.request(&grant).body.get("delegates"),
        Some(&BodyValue::List(vec![
            "projects/-/serviceAccounts/mid@my-proj.iam.gserviceaccount.com".into()
        ]))
    );
}

#[test]
fn metadata_server_base_auth_fetches_then_impersonates() {
    let mut t = target();
    t.scopes = Some(vec!["s".into()]);
    let mut d = document("t", t);
    d.base_auth = Some(BaseAuthDocument::MetadataServer {
        endpoint: Some("http://127.0.0.1:9".into()),
        service_account: None,
    });
    let p = plugin(d);
    let caller = identity("verified", "alice");
    let expire = (chrono::Utc::now() + chrono::Duration::seconds(3600)).to_rfc3339();
    let body =
        format!("{{\"accessToken\":\"ya29.impersonated\",\"expireTime\":\"{expire}\"}}");
    let mut cache = None;
    let mut fetches = 0;
    for now_ns in [0u64, 1_000_000_000] {
        let grant = p.authorize(&caller, "t").unwrap();
        assert!(p.request(&grant).url.ends_with(":generateAccessToken"));
        let mut post = PostIam::begin();
        let bearer = match post.bearer(&p.client, &mut cache, now_ns) {
            BearerStep::Bearer(token) => token,
            BearerStep::Fetch { url } => {
                assert_eq!(
                    url,
                    "http://127.0.0.1:9/computeMetadata/v1/instance/service-accounts/default/token"
                );
                fetches += 1;
                let token = MetadataToken {
                    access_token: "ya29.from-metadata".into(),
                    expires_in: 3599,
                };
                store_fetched(&mut cache, Ok(token), now_ns).unwrap()
            }
        };
        assert_eq!(bearer, "ya29.from-metadata");
        assert!(matches!(post.answered(&mut cache, Ok(200)), PostStep::ReadBody { status: 200 }));
        let text = read_reply(200, Ok(body.clone())).unwrap();
        let json = serde_json::from_str::<serde_json::Value>(&text).unwrap();
        let member = |name: &str| json.get(name).unwrap().as_str().unwrap().to_owned();
        let reply = AccessTokenReply {
            access_token: member("accessToken"),
            expire_time: member("expireTime"),
        };
        let cred = finish_access_token(&grant, &caller, Ok(reply)).unwrap();
        assert_eq!(cred.value.as_deref(), Some("ya29.impersonated"));
    }
    assert_eq!(fetches, 1);
}

#[test]
fn credential_of_a_token() {
    let mut t = target();
    t.scopes = Some(vec!["a".into(), "b".into()]);
    t.max_cache_ttl_ms = Some(60_000);
    let p = plugin(document("t", t));
    let mut caller = identity("verified", "al\nice");
    let grant = p.authorize(&caller, "t").unwrap();
    let token = || IssuedToken { token: "tok".into(), ttl_seconds: 3600 };
    let c = assemble(TokenKind::AccessToken, &grant, &caller, token(), "now".into());
    assert_eq!(c.value.as_deref(), Some("tok"));
    assert_eq!(c.ttl_seconds, 60);
    assert_eq!(c.issued_at, "now");
    assert_eq!(c.metadata.get("gcp.scopes").map(String::as_str), Some("a b"));
    assert_eq!(c.metadata.get("gcp.caller_subject").map(String::as_str), Some("alice"));
    assert_eq!(c.metadata.len(), 4);
    caller.subject_id = None;
    let c = assemble(TokenKind::AccessToken, &grant, &caller, token(), "now".into());
    assert!(c.metadata.get("gcp.caller_subject").is_none());
}

#[test]
fn credentials_at_a_given_time() {
    let p = static_access_plugin();
    let caller = identity("verified", "alice");
    let grant = p.authorize(&caller, "t").unwrap();
    let at = |now: i64| {
        let reply = AccessTokenReply {
            access_token: "ya29.x".into(),
            expire_time: "1970-01-01T01:00:00+00:00".into(),
        };
        finish_access_token_at(&grant, &caller, Ok(reply), now, "then".into()).unwrap()
    };
    assert_eq!(at(600).ttl_seconds, 3000);
    assert_eq!(at(3600).ttl_seconds, 1);
    assert_eq!(at(0).issued_at, "then");
    assert_eq!(
        finish_access_token_at(&grant, &caller, Err("bad".into()), 0, "then".into()).unwrap_err(),
        CredentialError::Backend { reason: "parse generateAccessToken response: bad".into() }
    );
    let payload = base64::engine::general_purpose::URL_SAFE_NO_PAD.encode(b"{\"exp\":1000}");
    let jwt = format!("h.{payload}.s");
    let cred = finish_id_token_at(&grant, &caller, Ok(jwt.clone()), 400, "then".into()).unwrap();
    assert_eq!(cred.ttl_seconds, 600);
    assert_eq!(cred.parts.get("id_token"), Some(&jwt));
    let cred = finish_id_token_at(&grant, &caller, Ok("opaque".into()), 400, "t".into()).unwrap();
    assert_eq!(cred.ttl_seconds, 3300);
}

#[test]
fn the_target_decides_the_kind() {
    let reply = || DecodedReply {
        as_access_token: Ok(AccessTokenReply {
            access_token: "ya29.x".into(),
            expire_time: "1970-01-01T00:10:00Z".into(),
        }),
        as_id_token: Ok("opaque".into()),
    };
    let caller = identity("verified", "alice");
    let p = static_access_plugin();
    let grant = p.authorize(&caller, "t").unwrap();
    let cred = finish_at(&grant, &caller, reply(), 0, "then".into()).unwrap();
    assert_eq!(cred.value.as_deref(), Some("ya29.x"));
    assert_eq!(cred.ttl_seconds, 600);
    assert_eq!(cred.metadata.get("gcp.token_kind").map(String::as_str), Some("access_token"));
    assert!(cred.parts.get("access_token").is_some());
    assert_eq!(finish(&grant, &caller, reply()).unwrap().ttl_seconds, 1);
    let mut bad = reply();
    bad.as_access_token = Err("bad".into());
    assert_eq!(
        finish(&grant, &caller, bad).unwrap_err(),
        CredentialError::Backend { reason: "parse generateAccessToken response: bad".into() }
    );

    let mut t = target();
    t.scopes = None;
    t.token_kind = Some(TokenKind::IdToken);
    t.audience = Some("https://svc.example.com".into());
    let p = plugin(document("t", t));
    let grant = p.authorize(&caller, "t").unwrap();
    let cred = finish(&grant, &caller, reply()).unwrap();
    assert_eq!(cred.value.as_deref(), Some("opaque"));
    assert_eq!(cred.ttl_seconds, 3300);
    assert_eq!(cred.metadata.get("gcp.token_kind").map(String::as_str), Some("id_token"));
    assert!(cred.parts.get("id_token").is_some());
    assert_eq!(cred.parts.len(), 1);
    let mut bad = reply();
    bad.as_id_token = Err("bad".into());
    assert_eq!(
        finish_at(&grant, &caller, bad, 0, "then".into()).unwrap_err(),
        CredentialError::Backend { reason: "parse generateIdToken response: bad".into() }
    );
}

#[test]
fn the_clock_is_printed_to_the_second() {
    let now = now_rfc3339();
    assert_eq!(now.len(), "2001-01-01T00:00:00Z".len());
    assert!(now.ends_with('Z'));
    for (i, c) in now.chars().enumerate() {
        match i {
            4 | 7 => assert_eq!(c, '-'),
            10 => assert_eq!(c, 'T'),
            13 | 16 => assert_eq!(c, ':'),
            19 => assert_eq!(c, 'Z'),
            _ => assert!(c.is_ascii_digit()),
        }
    }
    let read = chrono::DateTime::parse_from_rfc3339(&now).unwrap();
    assert!((chrono::Utc::now().timestamp() - read.timestamp()).abs() <= 5);
}
