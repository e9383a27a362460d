//! From the caller's identity to the email of the service account to impersonate.

use crate::config::{IdentityMapping, TargetConfig};
use crate::protocol::PluginIdentity;
use crate::text::{
    chars_of, find_char, first_index, first_index_is_first, has_prefix, index_value, opt_text,
    parse_index, same_text, string_of, strip_prefix,
};
use vstd::prelude::*;

verus! {

/// What the mapping of a target makes of a caller.
#[derive(Debug)]
pub enum Resolution {
    /// Impersonate this service account. `identity_derived` tells whether the
    /// email came from the caller's identity and not from the operator.
    Target { email: String, identity_derived: bool },
    EmptyDerived { reason: String },
    SubstitutionFailed { field: String },
}

/// A [`Resolution`] with its texts as sequences of characters.
pub enum ResolutionView {
    Target { email: Seq<char>, identity_derived: bool },
    EmptyDerived { reason: Seq<char> },
    SubstitutionFailed { field: Seq<char> },
}

impl View for Resolution {
    type V = ResolutionView;

    open spec fn view(&self) -> ResolutionView {
        match self {
            Resolution::Target { email, identity_derived } => ResolutionView::Target {
                email: email@,
                identity_derived: *identity_derived,
            },
            Resolution::EmptyDerived { reason } => ResolutionView::EmptyDerived { reason: reason@ },
            Resolution::SubstitutionFailed { field } => ResolutionView::SubstitutionFailed {
                field: field@,
            },
        }
    }
}

/// A lowercase letter, a digit or a hyphen.
pub open spec fn is_name_char(c: char) -> bool {
    'a' <= c <= 'z' || '0' <= c <= '9' || c == '-'
}

/// A character of a domain: one of a name, or a dot.
pub open spec fn is_domain_char(c: char) -> bool {
    is_name_char(c) || c == '.'
}

/// Whether all characters of `s` may stand in a name.
pub open spec fn all_name_chars(s: Seq<char>) -> bool {
    forall|i: int| 0 <= i < s.len() ==> is_name_char(#[trigger] s[i])
}

/// Whether all characters of `s` may stand in a domain.
pub open spec fn all_domain_chars(s: Seq<char>) -> bool {
    forall|i: int| 0 <= i < s.len() ==> is_domain_char(#[trigger] s[i])
}

/// Whether two dots stand next to each other in `s`.
pub open spec fn has_double_dot(s: Seq<char>) -> bool {
    exists|i: int| 0 <= i < s.len() - 1 && #[trigger] s[i] == '.' && s[i + 1] == '.'
}

/// The domain of a service account: `gserviceaccount.com` or one below it.
pub open spec fn is_sa_domain(s: Seq<char>) -> bool {
    &&& all_domain_chars(s)
    &&& !has_double_dot(s)
    &&& s == "gserviceaccount.com"@ || ".gserviceaccount.com"@.is_suffix_of(s)
}

/// Whether `s` is a name, an at sign at position `at`, and the domain of a
/// service account.
pub open spec fn is_sa_email_with_at(s: Seq<char>, at: int) -> bool {
    &&& 0 < at < s.len()
    &&& s[at] == '@'
    &&& all_name_chars(s.take(at))
    &&& is_sa_domain(s.skip(at + 1))
}

/// The email of a service account.
pub open spec fn is_sa_email(s: Seq<char>) -> bool {
    s.len() <= 320 && exists|at: int| is_sa_email_with_at(s, at)
}

/// Whether the given characters may all stand in a name.
pub fn name_chars(x: &[char]) -> (r: bool)
    ensures
        r == all_name_chars(x@),
{
    let mut i: usize = 0;
    while i < x.len()
        invariant
            i <= x@.len(),
            forall|j: int| 0 <= j < i ==> is_name_char(#[trigger] x@[j]),
        decreases x@.len() - i,
    {
        let c: char = x[i];
        if !(('a' <= c && c <= 'z') || ('0' <= c && c <= '9') || c == '-') {
            assert(!is_name_char(x@[i as int]));
            return false;
        }
        i = i + 1;
    }
    true
}

fn domain_chars(x: &[char]) -> (r: bool)
    ensures
        r == all_domain_chars(x@),
{
    let mut i: usize = 0;
    while i < x.len()
        invariant
            i <= x@.len(),
            forall|j: int| 0 <= j < i ==> is_domain_char(#[trigger] x@[j]),
        decreases x@.len() - i,
    {
        let c: char = x[i];
        if !(('a' <= c && c <= 'z') || ('0' <= c && c <= '9') || c == '-' || c == '.') {
            assert(!is_domain_char(x@[i as int]));
            return false;
        }
        i = i + 1;
    }
    true
}

fn double_dot(x: &[char]) -> (r: bool)
    ensures
        r == has_double_dot(x@),
{
    let mut i: usize = 1;
    while i < x.len()
        invariant
            1 <= i,
            i <= x@.len() || x@.len() == 0,
            forall|j: int| 0 <= j < i - 1 ==> !(#[trigger] x@[j] == '.' && x@[j + 1] == '.'),
        decreases x@.len() - i,
    {
        if x[i - 1] == '.' && x[i] == '.' {
            assert(x@[i - 1] == '.' && x@[i - 1 + 1] == '.');
            return true;
        }
        i = i + 1;
    }
    false
}

fn ends_with(x: &[char], suffix: &str) -> (r: bool)
    ensures
        r == suffix@.is_suffix_of(x@),
{
    let y: Vec<char> = chars_of(suffix);
    if y.len() > x.len() {
        return false;
    }
    let start: usize = x.len() - y.len();
    let mut i: usize = 0;
    while i < y.len()
        invariant
            i <= y@.len(),
            y@ == suffix@,
            start + y@.len() == x.len(),
            forall|j: int| 0 <= j < i ==> x@[start + j] == y@[j],
        decreases y@.len() - i,
    {
        if x[start + i] != y[i] {
            assert(x@.subrange(start as int, x@.len() as int)[i as int] != suffix@[i as int]);
            return false;
        }
        i = i + 1;
    }
    assert(suffix@ =~= x@.subrange(start as int, x@.len() as int));
    true
}

/// Whether `email` is the email of a service account: a non-empty name of
/// lowercase letters, digits and hyphens, an at sign, and a domain in the
/// `gserviceaccount.com` family. Nothing else may stand in the URL path of an
/// impersonation call.
pub fn is_valid_sa_email(email: &str) -> (r: bool)
    ensures
        r == is_sa_email(email@),
{
    let x: Vec<char> = chars_of(email);
    if x.len() == 0 || x.len() > 320 {
        return false;
    }
    let at: usize = find_char(x.as_slice(), '@');
    proof {
        first_index_is_first(x@, '@');
        assert forall|k: int| is_sa_email_with_at(email@, k) implies k == at by {
            if k < at {
                assert(x@[k] != '@');
            } else if at < k {
                assert(email@.take(k)[at as int] == '@');
            }
        }
    }
    if at == 0 || at == x.len() {
        return false;
    }
    let local = vstd::slice::slice_subrange(x.as_slice(), 0, at);
    let domain = vstd::slice::slice_subrange(x.as_slice(), at + 1, x.len());
    assert(local@ =~= email@.take(at as int));
    assert(domain@ =~= email@.skip(at + 1));
    if !name_chars(local) {
        return false;
    }
    if !domain_chars(domain) {
        return false;
    }
    if double_dot(domain) {
        return false;
    }
    let text: String = string_of(domain);
    let r: bool = same_text(text.as_str(), "gserviceaccount.com") || ends_with(
        domain,
        ".gserviceaccount.com",
    );
    assert(r ==> is_sa_email_with_at(email@, at as int));
    r
}

/// What a service account's resource name begins with.
pub const RESOURCE_PREFIX: &'static str = "projects/-/serviceAccounts/";

/// A delegate: the email of a service account, bare or as a resource name.
pub open spec fn is_delegate(d: Seq<char>) -> bool {
    if RESOURCE_PREFIX@.is_prefix_of(d) {
        is_sa_email(d.skip(RESOURCE_PREFIX@.len() as int))
    } else {
        is_sa_email(d)
    }
}

/// Whether `d` is the email of a service account, bare or as a resource name.
pub fn is_valid_delegate(d: &str) -> (r: bool)
    ensures
        r == is_delegate(d@),
{
    match strip_prefix(d, RESOURCE_PREFIX) {
        Some(email) => is_valid_sa_email(email.as_str()),
        None => is_valid_sa_email(d),
    }
}

/// The resource name of a delegate.
pub open spec fn resource_name(d: Seq<char>) -> Seq<char> {
    if RESOURCE_PREFIX@.is_prefix_of(d) {
        d
    } else {
        RESOURCE_PREFIX@ + d
    }
}

/// The resource name of a delegate that is given bare or as a resource name.
pub fn delegate_resource_name(d: &str) -> (r: String)
    ensures
        r@ == resource_name(d@),
{
    if has_prefix(d, RESOURCE_PREFIX) {
        d.to_owned()
    } else {
        RESOURCE_PREFIX.to_owned().concat(d)
    }
}

/// The position named by `name[position]`, if `field` has that form.
pub open spec fn indexed(field: Seq<char>, name: Seq<char>) -> Option<usize> {
    let prefix = name.push('[');
    let rest = field.skip(prefix.len() as int);
    if prefix.is_prefix_of(field) && rest.len() > 0 && rest.last() == ']' {
        index_value(rest.drop_last())
    } else {
        None
    }
}

/// Reads the position out of a field of the form `name[position]`.
pub fn parse_indexed(field: &str, name: &str) -> (r: Option<usize>)
    ensures
        r == indexed(field@, name@),
{
    let mut prefix: String = name.to_owned();
    prefix.push('[');
    let rest: String = match strip_prefix(field, prefix.as_str()) {
        Some(rest) => rest,
        None => {
            return None;
        },
    };
    let mut inner: Vec<char> = chars_of(rest.as_str());
    let ghost rest_chars = inner@;
    match inner.pop() {
        Some(']') => {
            assert(inner@ =~= rest_chars.drop_last());
            parse_index(string_of(inner.as_slice()).as_str())
        },
        _ => None,
    }
}

/// The entry of `list` at the position that `field` names, if `field` names one.
pub open spec fn listed(list: Seq<String>, position: Option<usize>) -> Option<Seq<char>> {
    match position {
        Some(i) if i < list.len() => Some(list[i as int]@),
        _ => None,
    }
}

/// The value of a field of the caller's identity.
pub open spec fn field_value(field: Seq<char>, identity: PluginIdentity) -> Option<Seq<char>> {
    if field == "subject_id"@ {
        opt_text(identity.subject_id)
    } else if field == "kind"@ {
        Some(identity.kind@)
    } else if field == "trust_level"@ {
        Some(identity.trust_level@)
    } else if field == "auth_provider"@ {
        opt_text(identity.auth_provider)
    } else if "attributes."@.is_prefix_of(field) {
        let key = field.skip("attributes."@.len() as int);
        if identity.attributes@.dom().contains(key) {
            Some(identity.attributes@[key]@)
        } else {
            None
        }
    } else if indexed(field, "roles"@) is Some {
        listed(identity.roles@, indexed(field, "roles"@))
    } else if indexed(field, "groups"@) is Some {
        listed(identity.groups@, indexed(field, "groups"@))
    } else {
        listed(identity.scopes@, indexed(field, "scopes"@))
    }
}

fn entry_at(list: &Vec<String>, position: usize) -> (r: Option<String>)
    ensures
        opt_text(r) == listed(list@, Some(position)),
{
    if position < list.len() {
        Some(list[position].clone())
    } else {
        None
    }
}

/// The value of a field of the caller's identity: `subject_id`, `kind`,
/// `trust_level`, `auth_provider`, `roles[N]`, `groups[N]`, `scopes[N]` or
/// `attributes.<key>`.
pub fn resolve_field(field: &str, identity: &PluginIdentity) -> (r: Option<String>)
    ensures
        opt_text(r) == field_value(field@, *identity),
{
    if same_text(field, "subject_id") {
        return identity.subject_id.clone();
    }
    if same_text(field, "kind") {
        return Some(identity.kind.clone());
    }
    if same_text(field, "trust_level") {
        return Some(identity.trust_level.clone());
    }
    if same_text(field, "auth_provider") {
        return identity.auth_provider.clone();
    }
    if let Some(key) = strip_prefix(field, "attributes.") {
        return match identity.attributes.get(key.as_str()) {
            Some(value) => Some(value.clone()),
            None => None,
        };
    }
    if let Some(i) = parse_indexed(field, "roles") {
        return entry_at(&identity.roles, i);
    }
    if let Some(i) = parse_indexed(field, "groups") {
        return entry_at(&identity.groups, i);
    }
    if let Some(i) = parse_indexed(field, "scopes") {
        return entry_at(&identity.scopes, i);
    }
    None
}

/// A template with the caller's fields put in, or the field that had no value.
pub enum Expansion {
    Text { text: Seq<char> },
    Failed { field: Seq<char> },
}

/// `e`, with `prefix` before its text.
pub open spec fn with_prefix(prefix: Seq<char>, e: Expansion) -> Expansion {
    match e {
        Expansion::Text { text } => Expansion::Text { text: prefix + text },
        Expansion::Failed { field } => Expansion::Failed { field },
    }
}

/// Whether a placeholder begins at the start of `template`.
pub open spec fn opens_placeholder(template: Seq<char>) -> bool {
    template.len() >= 2 && template[0] == '$' && template[1] == '{'
}

/// The field that a placeholder names.
pub open spec fn placeholder_field(placeholder: Seq<char>) -> Seq<char> {
    if "identity."@.is_prefix_of(placeholder) {
        placeholder.skip("identity."@.len() as int)
    } else {
        placeholder
    }
}

/// `template` with each placeholder replaced by the field that it names, read
/// from left to right in one pass. It fails at the first placeholder that does
/// not end, or whose field is absent or empty.
pub open spec fn expand(template: Seq<char>, identity: PluginIdentity) -> Expansion
    decreases template.len(),
{
    if template.len() == 0 {
        Expansion::Text { text: Seq::empty() }
    } else if opens_placeholder(template) {
        let rest = template.skip(2);
        let end = first_index(rest, '}') as int;
        let field = placeholder_field(rest.take(end));
        if end >= rest.len() {
            Expansion::Failed { field: "unterminated placeholder `${"@ + rest + "`"@ }
        } else {
            match field_value(field, identity) {
                Some(value) if value.len() > 0 => with_prefix(
                    value,
                    expand(rest.skip(end + 1), identity),
                ),
                _ => Expansion::Failed { field },
            }
        }
    } else {
        with_prefix(template.take(1), expand(template.skip(1), identity))
    }
}

/// What a template makes of a caller.
pub open spec fn template_resolution(
    template: Seq<char>,
    identity: PluginIdentity,
) -> ResolutionView {
    match expand(template, identity) {
        Expansion::Failed { field } => ResolutionView::SubstitutionFailed { field },
        Expansion::Text { text } => if text.len() == 0 {
            ResolutionView::EmptyDerived {
                reason: "template substitution produced an empty service-account email"@,
            }
        } else {
            ResolutionView::Target { email: text, identity_derived: true }
        },
    }
}

proof fn lemma_with_prefix_twice(a: Seq<char>, b: Seq<char>, e: Expansion)
    ensures
        with_prefix(a, with_prefix(b, e)) == with_prefix(a + b, e),
{
    match e {
        Expansion::Text { text } => {
            assert(a + (b + text) =~= (a + b) + text);
        },
        Expansion::Failed { field } => {},
    }
}

/// Puts the caller's fields into a template, in place of `${identity.<field>}`.
pub fn substitute(template: &str, identity: &PluginIdentity) -> (r: Resolution)
    ensures
        r@ == template_resolution(template@, *identity),
{
    let x: Vec<char> = chars_of(template);
    let mut out: String = String::new();
    let mut i: usize = 0;
    proof {
        assert(x@.skip(0) =~= template@);
        match expand(template@, *identity) {
            Expansion::Text { text } => {
                assert(Seq::<char>::empty() + text =~= text);
            },
            Expansion::Failed { field } => {},
        }
    }
    while i < x.len()
        invariant
            i <= x@.len(),
            expand(template@, *identity) == with_prefix(
                out@,
                expand(x@.skip(i as int), *identity),
            ),
        decreases x@.len() - i,
    {
        let ghost tail = x@.skip(i as int);
        assert(tail[0] == x@[i as int]);
        let ghost before = out@;
        if x[i] == '$' && i + 1 < x.len() && x[i + 1] == '{' {
            assert(opens_placeholder(tail));
            let rest = vstd::slice::slice_subrange(x.as_slice(), i + 2, x.len());
            assert(rest@ =~= tail.skip(2));
            let end: usize = find_char(rest, '}');
            if end == rest.len() {
                let unterminated: String = "unterminated placeholder `${".to_owned().concat(
                    string_of(rest).as_str(),
                ).concat("`");
                return Resolution::SubstitutionFailed { field: unterminated };
            }
            let placeholder: String = string_of(vstd::slice::slice_subrange(rest, 0, end));
            assert(placeholder@ =~= rest@.take(end as int));
            let field: String = match strip_prefix(placeholder.as_str(), "identity.") {
                Some(field) => field,
                None => placeholder,
            };
            match resolve_field(field.as_str(), identity) {
                Some(value) => {
                    if value.as_str().is_empty() {
                        return Resolution::SubstitutionFailed { field };
                    }
                    out.append(value.as_str());
                    i = i + 2 + end + 1;
                    proof {
                        assert(x@.skip(i as int) =~= rest@.skip(end + 1));
                        lemma_with_prefix_twice(
                            before,
                            value@,
                            expand(x@.skip(i as int), *identity),
                        );
                    }
                },
                None => {
                    return Resolution::SubstitutionFailed { field };
                },
            }
        } else {
            assert(!opens_placeholder(tail)) by {
                if tail.len() >= 2 {
                    assert(tail[1] == x@[i + 1]);
                }
            }
            out.push(x[i]);
            i = i + 1;
            proof {
                assert(x@.skip(i as int) =~= tail.skip(1));
                assert(before + tail.take(1) =~= out@);
                lemma_with_prefix_twice(
                    before,
                    tail.take(1),
                    expand(x@.skip(i as int), *identity),
                );
            }
        }
    }
    proof {
        assert(x@.skip(i as int) =~= Seq::<char>::empty());
        assert(out@ + Seq::<char>::empty() =~= out@);
    }
    if out.as_str().is_empty() {
        Resolution::EmptyDerived {
            reason: "template substitution produced an empty service-account email".to_owned(),
        }
    } else {
        Resolution::Target { email: out, identity_derived: true }
    }
}

/// What a mapping that takes one field of the caller makes of a caller: the
/// field where it has a value, else the operator's fallback.
pub open spec fn field_or_fallback(
    field: Option<Seq<char>>,
    fallback: Seq<char>,
    reason: Seq<char>,
) -> ResolutionView {
    match field {
        Some(value) if value.len() > 0 => ResolutionView::Target {
            email: value,
            identity_derived: true,
        },
        _ => if fallback.len() > 0 {
            ResolutionView::Target { email: fallback, identity_derived: false }
        } else {
            ResolutionView::EmptyDerived { reason }
        },
    }
}

/// What the mapping of a target makes of a caller.
pub open spec fn resolution(identity: PluginIdentity, target: TargetConfig) -> ResolutionView {
    match target.identity_mapping {
        IdentityMapping::Static => ResolutionView::Target {
            email: target.service_account@,
            identity_derived: false,
        },
        IdentityMapping::SubjectId => field_or_fallback(
            opt_text(identity.subject_id),
            target.service_account@,
            "identity has no subject_id and no static fallback service_account"@,
        ),
        IdentityMapping::FromRole => field_or_fallback(
            listed(identity.roles@, Some(0)),
            target.service_account@,
            "identity has no roles and no static fallback service_account"@,
        ),
        IdentityMapping::Template => template_resolution(
            match target.service_account_template {
                Some(template) => template@,
                None => Seq::empty(),
            },
            identity,
        ),
    }
}

fn take_field_or_fallback(field: Option<String>, fallback: &String, reason: &str) -> (r: Resolution)
    ensures
        r@ == field_or_fallback(opt_text(field), fallback@, reason@),
{
    if let Some(value) = field {
        if !value.as_str().is_empty() {
            return Resolution::Target { email: value, identity_derived: true };
        }
    }
    if !fallback.as_str().is_empty() {
        Resolution::Target { email: fallback.clone(), identity_derived: false }
    } else {
        Resolution::EmptyDerived { reason: reason.to_owned() }
    }
}

/// Chooses the service account that a target impersonates for a caller.
pub fn resolve_target(identity: &PluginIdentity, target: &TargetConfig) -> (r: Resolution)
    ensures
        r@ == resolution(*identity, *target),
{
    match target.identity_mapping {
        IdentityMapping::Static => Resolution::Target {
            email: target.service_account.clone(),
            identity_derived: false,
        },
        IdentityMapping::SubjectId => take_field_or_fallback(
            identity.subject_id.clone(),
            &target.service_account,
            "identity has no subject_id and no static fallback service_account",
        ),
        IdentityMapping::FromRole => take_field_or_fallback(
            entry_at(&identity.roles, 0),
            &target.service_account,
            "identity has no roles and no static fallback service_account",
        ),
        IdentityMapping::Template => match &target.service_account_template {
            Some(template) => substitute(template.as_str(), identity),
            None => {
                proof {
                    reveal_strlit("");
                    assert(""@ =~= Seq::<char>::empty());
                }
                substitute("", identity)
            },
        },
    }
}

} // verus!
