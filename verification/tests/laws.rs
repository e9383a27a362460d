use gcp_impersonation::client::{
    encode_sa, read_reply, seconds_left, store_fetched, BearerStep, CachedBaseToken, GcpClient,
    MetadataToken, PostIam, PostStep,
};
use gcp_impersonation::config::{
    is_allowed_api_endpoint, is_allowed_endpoint, BaseAuthDocument, ConfigDocument,
    TargetDocument,
};
use gcp_impersonation::identity_mapping::{
    delegate_resource_name, is_valid_delegate, is_valid_sa_email, parse_indexed, substitute,
    Resolution,
};
use gcp_impersonation::name_map::{Entry, NameMap};
use gcp_impersonation::plugin::{cap_ttl_seconds, sanitize_subject};
use gcp_impersonation::protocol::{CredentialError, PluginIdentity};
use gcp_impersonation::text::decimal_text;
use gcp_impersonation::{BaseAuth, GcpImpersonationPlugin, IdentityMapping};

const SA: &str = "svc@my-proj.iam.gserviceaccount.com";
const OTHER: &str = "other@my-proj.iam.gserviceaccount.com";

fn caller(trust: &str, subject: Option<&str>) -> PluginIdentity {
    let mut attributes = NameMap::new();
    attributes.insert("team".to_owned(), "${kind}".to_owned());
    PluginIdentity {
        kind: "user".into(),
        trust_level: trust.into(),
        subject_id: subject.map(str::to_owned),
        auth_provider: None,
        issuer: None,
        roles: vec![],
        groups: vec![],
        scopes: vec![],
        attributes,
    }
}

fn plugin(mapping: IdentityMapping, allowed: &[&str]) -> GcpImpersonationPlugin {
    let target = TargetDocument {
        token_kind: None,
        service_account: Some(SA.into()),
        identity_mapping: Some(mapping),
        service_account_template: None,
        allowed_service_accounts: Some(allowed.iter().map(|a| a.to_string()).collect()),
        scopes: Some(vec!["s".into()]),
        lifetime_seconds: None,
        allow_extended_lifetime: None,
        audience: None,
        include_email: None,
        id_token_assumed_ttl_seconds: None,
        delegates: Some(vec![OTHER.into()]),
        max_cache_ttl_ms: None,
    };
    let document = ConfigDocument {
        base_auth: Some(BaseAuthDocument::StaticAccessToken { access_token: "base".into() }),
        iam_credentials_endpoint: Some("https://iam.example.com".into()),
        connect_timeout_ms: None,
        operation_timeout_ms: None,
        refresh_buffer_ms: None,
        targets: vec![Entry { name: "t".into(), value: target }],
    };
    GcpImpersonationPlugin::from_config_json(Ok(document), "1", "m").unwrap()
}

#[test]
fn untrusted_callers_are_refused_even_a_listed_account() {
    let p = plugin(IdentityMapping::SubjectId, &[OTHER]);
    for trust in ["", "Verified", "header_asserted", "verified "] {
        let refusal = p.authorize(&caller(trust, Some(OTHER)), "t").unwrap_err();
        assert!(matches!(refusal.error(), CredentialError::NotAuthorized { .. }));
    }
    assert_eq!(
        p.authorize(&caller("verified", Some(OTHER)), "t").unwrap().service_account,
        OTHER
    );
    assert!(p.authorize(&caller("verified", Some(SA)), "t").is_err());
}

#[test]
fn static_targets_are_the_same_for_all() {
    let p = plugin(IdentityMapping::Static, &[OTHER]);
    for id in [caller("verified", Some(OTHER)), caller("none", Some("x")), caller("", None)] {
        assert_eq!(p.authorize(&id, "t").unwrap().service_account, SA);
    }
}

#[test]
fn requests_of_two_callers_differ_in_one_segment() {
    let p = plugin(IdentityMapping::SubjectId, &[OTHER]);
    let a = p.authorize(&caller("verified", Some(OTHER)), "t").unwrap();
    let b = p.authorize(&caller("verified", None), "t").unwrap();
    let (a, b) = (p.request(&a), p.request(&b));
    assert_eq!(a.body, b.body);
    assert_eq!(
        a.url.replace("other%40", "svc%40"),
        b.url
    );
    assert!(a.url.starts_with("https://iam.example.com/v1/projects/-/serviceAccounts/"));
}

fn percent_decoded(s: &str) -> Vec<u8> {
    let b = s.as_bytes();
    let mut out = Vec::new();
    let mut i = 0;
    while i < b.len() {
        if b[i] == b'%' {
            let digits = &s[i + 1..i + 3];
            assert_eq!(digits, digits.to_uppercase());
            out.push(u8::from_str_radix(digits, 16).unwrap());
            i += 3;
        } else {
            out.push(b[i]);
            i += 1;
        }
    }
    out
}

#[test]
fn emails_and_segments() {
    for bad in ["/", ":", "%", "?", "#", " ", "\t", "..", "@", "\u{e9}", "\u{7f}"] {
        assert!(!is_valid_sa_email(&format!("a{bad}b@my-proj.iam.gserviceaccount.com")));
        assert!(!is_valid_sa_email(&format!("a@my{bad}proj.iam.gserviceaccount.com")));
    }
    assert_eq!(encode_sa(SA), SA.replace('@', "%40"));
    for text in ["a/../b", "%2F", "\u{0}\u{10ffff}", "x?y=z#w"] {
        assert!(encode_sa(text)
            .chars()
            .all(|c| c.is_ascii_alphanumeric() || "-._~%".contains(c)));
    }
    for text in ["a/../b", "%2F%2f", "\u{0}\u{e9}\u{10ffff}", SA] {
        assert_eq!(percent_decoded(&encode_sa(text)), text.as_bytes());
    }
    assert_ne!(encode_sa("%40"), encode_sa("@"));
    assert_ne!(encode_sa("a"), encode_sa("b"));
}

#[test]
fn resource_names_are_taken_once() {
    for d in [SA, "projects/-/serviceAccounts/x@my-proj.iam.gserviceaccount.com"] {
        let once = delegate_resource_name(d);
        assert!(is_valid_delegate(&once));
        assert_eq!(delegate_resource_name(&once), once);
    }
    assert!(!is_valid_delegate(
        "projects/-/serviceAccounts/projects/-/serviceAccounts/x@my-proj.iam.gserviceaccount.com"
    ));
}

#[test]
fn lifetimes() {
    for (secs, ms) in [(3600u64, 60_000u64), (45, 3_600_000), (3600, 999), (7, 7_000), (0, 5)] {
        let ttl = cap_ttl_seconds(secs, ms);
        assert!(ttl <= secs);
        assert!(ttl * 1000 <= ms || ttl <= 1);
    }
    assert!(seconds_left(1000, 900) >= seconds_left(1000, 950));
    assert_eq!(seconds_left(1000, 2000), 1);
}

#[test]
fn labels_of_labels() {
    let label = sanitize_subject(&"a\u{1b}[31m\u{85}b".repeat(100));
    assert!(label.chars().count() <= 256);
    assert!(!label.chars().any(char::is_control));
    assert_eq!(sanitize_subject(&label), label);
    assert_eq!(sanitize_subject("alice@example.com"), "alice@example.com");
}

#[test]
fn messages_do_not_come_through() {
    let of = |message: &str| {
        read_reply(
            403,
            Ok(format!("{{\"error\":{{\"status\":\"ABORTED\",\"message\":\"{message}\"}}}}")),
        )
    };
    assert_eq!(of("one"), of("two"));
    assert_eq!(
        of("one"),
        Err(CredentialError::NotAuthorized {
            reason: "IAM Credentials returned HTTP 403 (ABORTED)".into()
        })
    );
}

#[test]
fn retries_and_caches() {
    let client = GcpClient {
        iam_endpoint: "https://iam.example.com".into(),
        refresh_buffer_ms: 0,
        base: BaseAuth::MetadataServer {
            endpoint: "http://localhost".into(),
            service_account: "default".into(),
        },
    };
    let mut cache = Some(CachedBaseToken { token: "old".into(), expires_at_ns: None });
    let mut post = PostIam::begin();
    let mut retries = 0;
    for status in [401u16, 401, 401] {
        if matches!(post.answered(&mut cache, Ok(status)), PostStep::Retry) {
            retries += 1;
        }
    }
    assert_eq!(retries, 1);
    for held in [None, Some(CachedBaseToken { token: "t".into(), expires_at_ns: None })] {
        let mut cache = held;
        assert!(matches!(post.bearer(&client, &mut cache, 0), BearerStep::Fetch { .. }));
    }
    let mut cache = None;
    let token = MetadataToken { access_token: "m".into(), expires_in: u64::MAX };
    store_fetched(&mut cache, Ok(token), u64::MAX).unwrap();
    assert!(matches!(
        client.base_bearer(&mut cache, false, u64::MAX),
        BearerStep::Bearer(_)
    ));
}

#[test]
fn placeholders() {
    let id = caller("verified", Some("sub"));
    let text = |template: &str| match substitute(template, &id) {
        Resolution::Target { email, .. } => email,
        other => panic!("{other:?}"),
    };
    assert_eq!(text("plain $ { } text"), "plain $ { } text");
    assert_eq!(text("a${subject_id}b"), text("a${identity.subject_id}b"));
    // What was put in is not expanded again.
    assert_eq!(text("${attributes.team}"), "${kind}");
    // Part by part, unless a placeholder spans both.
    for (a, b) in [("x${kind}", "y${subject_id}"), ("$", "${kind}"), ("${kind}", "")] {
        let first = if a == "$" { "$".to_owned() } else { text(a) };
        let second = if b.is_empty() { String::new() } else { text(b) };
        assert_eq!(text(&format!("{a}{b}")), first + &second);
    }
    assert!(matches!(substitute("${ki", &id), Resolution::SubstitutionFailed { .. }));
    assert_eq!(text("${kind}"), "user");
    for position in [0usize, 9, 10, 4096] {
        let field = format!("roles[{}]", decimal_text(position as u64));
        assert_eq!(parse_indexed(&field, "roles"), Some(position));
    }
}

#[test]
fn defaults_may_be_called() {
    assert!(is_allowed_api_endpoint("https://iamcredentials.googleapis.com"));
    assert!(is_allowed_endpoint("http://metadata.google.internal"));
}
