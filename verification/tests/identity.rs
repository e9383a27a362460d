use gcp_impersonation::config::{IdentityMapping, TargetConfig, TokenKind};
use gcp_impersonation::identity_mapping::{
    delegate_resource_name, is_valid_delegate, is_valid_sa_email, parse_indexed, resolve_field,
    resolve_target, substitute, Resolution,
};
use gcp_impersonation::name_map::NameMap;
use gcp_impersonation::protocol::PluginIdentity;

const SA_A: &str = "team-a@my-proj.iam.gserviceaccount.com";
const SA_B: &str = "team-b@my-proj.iam.gserviceaccount.com";

fn ident(subject: Option<&str>) -> PluginIdentity {
    let mut attributes = NameMap::new();
    attributes.insert("team".to_owned(), "team-a".to_owned());
    PluginIdentity {
        kind: "verified".into(),
        trust_level: "verified".into(),
        subject_id: subject.map(str::to_owned),
        auth_provider: Some("okta".into()),
        issuer: Some("https://okta.example.com".into()),
        roles: vec![SA_A.into(), SA_B.into()],
        groups: vec!["sec".into()],
        scopes: vec![],
        attributes,
    }
}

fn target(mapping: IdentityMapping, sa: &str, template: Option<&str>) -> TargetConfig {
    TargetConfig {
        token_kind: TokenKind::AccessToken,
        service_account: sa.into(),
        identity_mapping: mapping,
        service_account_template: template.map(str::to_owned),
        allowed_service_accounts: None,
        scopes: vec!["https://www.googleapis.com/auth/cloud-platform".into()],
        lifetime_seconds: None,
        allow_extended_lifetime: false,
        audience: None,
        include_email: true,
        id_token_assumed_ttl_seconds: 3300,
        delegates: vec![],
        max_cache_ttl_ms: 3_600_000,
    }
}

fn assert_target(r: &Resolution, want: &str, derived: bool) {
    match r {
        Resolution::Target { email, identity_derived } => {
            assert_eq!(email, want);
            assert_eq!(*identity_derived, derived);
        }
        other => panic!("expected Target, got {other:?}"),
    }
}

#[test]
fn sa_email_validation_accepts_real() {
    assert!(is_valid_sa_email(SA_A));
    assert!(is_valid_sa_email("123456-compute@developer.gserviceaccount.com"));
    assert!(is_valid_sa_email("my-proj@appspot.gserviceaccount.com"));
}

#[test]
fn sa_email_validation_rejects_garbage_and_injection() {
    assert!(!is_valid_sa_email(""));
    assert!(!is_valid_sa_email("no-at"));
    assert!(!is_valid_sa_email("evil@example.com"));
    assert!(!is_valid_sa_email("@my-proj.iam.gserviceaccount.com"));
    assert!(!is_valid_sa_email("a@b@my-proj.iam.gserviceaccount.com"));
    assert!(!is_valid_sa_email("UPPER@my-proj.iam.gserviceaccount.com"));
    assert!(!is_valid_sa_email("a b@my-proj.iam.gserviceaccount.com"));
    // path-breakout attempts
    assert!(!is_valid_sa_email("svc/x@my-proj.iam.gserviceaccount.com"));
    assert!(!is_valid_sa_email("svc@my-proj.iam.gserviceaccount.com:generateIdToken"));
    assert!(!is_valid_sa_email("../../x@my-proj.iam.gserviceaccount.com"));
}

#[test]
fn delegate_validation_and_wrapping() {
    assert!(is_valid_delegate(SA_A));
    assert!(is_valid_delegate(&format!("projects/-/serviceAccounts/{SA_A}")));
    assert!(!is_valid_delegate("bogus"));
    assert_eq!(delegate_resource_name(SA_A), format!("projects/-/serviceAccounts/{SA_A}"));
    assert_eq!(
        delegate_resource_name(&format!("projects/-/serviceAccounts/{SA_A}")),
        format!("projects/-/serviceAccounts/{SA_A}")
    );
}

#[test]
fn static_returns_configured_not_derived() {
    let r = resolve_target(&ident(Some("x")), &target(IdentityMapping::Static, SA_A, None));
    assert_target(&r, SA_A, false);
}

#[test]
fn subject_id_returns_caller_derived() {
    let r = resolve_target(&ident(Some(SA_B)), &target(IdentityMapping::SubjectId, SA_A, None));
    assert_target(&r, SA_B, true);
}

#[test]
fn subject_id_falls_back_when_anonymous_not_derived() {
    let r = resolve_target(&ident(None), &target(IdentityMapping::SubjectId, SA_A, None));
    assert_target(&r, SA_A, false);
}

#[test]
fn subject_id_empty_derived_without_fallback() {
    let r = resolve_target(&ident(None), &target(IdentityMapping::SubjectId, "", None));
    assert!(matches!(r, Resolution::EmptyDerived { .. }));
}

#[test]
fn from_role_returns_first_role_derived() {
    let r = resolve_target(&ident(Some("x")), &target(IdentityMapping::FromRole, SA_A, None));
    assert_target(&r, SA_A, true);
}

#[test]
fn template_substitutes_attribute_derived() {
    let r = resolve_target(
        &ident(Some("x")),
        &target(
            IdentityMapping::Template,
            "",
            Some("${identity.attributes.team}@my-proj.iam.gserviceaccount.com"),
        ),
    );
    assert_target(&r, SA_A, true);
}

#[test]
fn template_substitution_failure_surfaces_field() {
    let r = resolve_target(
        &ident(None),
        &target(
            IdentityMapping::Template,
            "",
            Some("${identity.subject_id}@my-proj.iam.gserviceaccount.com"),
        ),
    );
    match r {
        Resolution::SubstitutionFailed { field } => assert_eq!(field, "subject_id"),
        other => panic!("{other:?}"),
    }
}

#[test]
fn sa_email_edges() {
    assert!(is_valid_sa_email("a@gserviceaccount.com"));
    assert!(!is_valid_sa_email("a@xgserviceaccount.com"));
    assert!(!is_valid_sa_email("a@.gserviceaccount.com.evil.com"));
    assert!(!is_valid_sa_email("a@b..gserviceaccount.com"));
    assert!(!is_valid_sa_email("a.b@my-proj.iam.gserviceaccount.com"));
    assert!(!is_valid_sa_email("a@"));
    assert!(!is_valid_sa_email("\u{e9}@my-proj.iam.gserviceaccount.com"));
    let tail = "@my-proj.iam.gserviceaccount.com";
    assert!(is_valid_sa_email(&format!("{}{}", "a".repeat(320 - tail.len()), tail)));
    assert!(!is_valid_sa_email(&format!("{}{}", "a".repeat(321 - tail.len()), tail)));
}

#[test]
fn from_role_without_roles() {
    let mut id = ident(Some("x"));
    id.roles = vec![];
    let r = resolve_target(&id, &target(IdentityMapping::FromRole, SA_B, None));
    assert_target(&r, SA_B, false);
    match resolve_target(&id, &target(IdentityMapping::FromRole, "", None)) {
        Resolution::EmptyDerived { reason } => assert_eq!(
            reason,
            "identity has no roles and no static fallback service_account"
        ),
        other => panic!("{other:?}"),
    }
}

#[test]
fn an_empty_subject_counts_as_none() {
    let r = resolve_target(&ident(Some("")), &target(IdentityMapping::SubjectId, SA_A, None));
    assert_target(&r, SA_A, false);
    match resolve_target(&ident(Some("")), &target(IdentityMapping::SubjectId, "", None)) {
        Resolution::EmptyDerived { reason } => assert_eq!(
            reason,
            "identity has no subject_id and no static fallback service_account"
        ),
        other => panic!("{other:?}"),
    }
}

#[test]
fn every_field_resolves() {
    let id = ident(Some("sub"));
    let of = |field: &str| resolve_field(field, &id);
    assert_eq!(of("subject_id").as_deref(), Some("sub"));
    assert_eq!(of("kind").as_deref(), Some("verified"));
    assert_eq!(of("trust_level").as_deref(), Some("verified"));
    assert_eq!(of("auth_provider").as_deref(), Some("okta"));
    assert_eq!(of("issuer"), None);
    assert_eq!(of("roles[0]").as_deref(), Some(SA_A));
    assert_eq!(of("roles[1]").as_deref(), Some(SA_B));
    assert_eq!(of("roles[2]"), None);
    assert_eq!(of("groups[0]").as_deref(), Some("sec"));
    assert_eq!(of("scopes[0]"), None);
    assert_eq!(of("attributes.team").as_deref(), Some("team-a"));
    assert_eq!(of("attributes.none"), None);
    assert_eq!(of("bogus"), None);
}

#[test]
fn positions_in_lists() {
    assert_eq!(parse_indexed("roles[0]", "roles"), Some(0));
    assert_eq!(parse_indexed("roles[+7]", "roles"), Some(7));
    assert_eq!(parse_indexed("roles[007]", "roles"), Some(7));
    assert_eq!(parse_indexed("roles[]", "roles"), None);
    assert_eq!(parse_indexed("roles[+]", "roles"), None);
    assert_eq!(parse_indexed("roles[-1]", "roles"), None);
    assert_eq!(parse_indexed("roles[1", "roles"), None);
    assert_eq!(parse_indexed("roles[1]]", "roles"), None);
    assert_eq!(parse_indexed("groups[1]", "roles"), None);
    assert_eq!(parse_indexed(&format!("roles[{}]", usize::MAX), "roles"), Some(usize::MAX));
    assert_eq!(parse_indexed("roles[99999999999999999999999]", "roles"), None);
}

#[test]
fn templates_expand_from_the_left() {
    let id = ident(Some("sub"));
    assert_target(&substitute("a$b{c}d", &id), "a$b{c}d", true);
    assert_target(
        &substitute("x-${subject_id}-${identity.groups[0]}!", &id),
        "x-sub-sec!",
        true,
    );
    match substitute("x-${groups[9]}-${roles[9]}", &id) {
        Resolution::SubstitutionFailed { field } => assert_eq!(field, "groups[9]"),
        other => panic!("{other:?}"),
    }
    match substitute("x-${roles[0]", &id) {
        Resolution::SubstitutionFailed { field } => {
            assert_eq!(field, "unterminated placeholder `${roles[0]`")
        }
        other => panic!("{other:?}"),
    }
    match substitute("", &id) {
        Resolution::EmptyDerived { reason } => assert_eq!(
            reason,
            "template substitution produced an empty service-account email"
        ),
        other => panic!("{other:?}"),
    }
}
