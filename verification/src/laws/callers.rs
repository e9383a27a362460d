//! What is read off a caller, and which account that selects.

use crate::config::{IdentityMapping, TargetConfig};
use crate::identity_mapping::{
    expand, field_value, has_double_dot, indexed, is_delegate, is_domain_char, is_name_char,
    is_sa_domain, is_sa_email, is_sa_email_with_at, opens_placeholder, resolution,
    resource_name, template_resolution, Expansion, Resolution, ResolutionView, RESOURCE_PREFIX,
};
use crate::protocol::PluginIdentity;
use crate::text::{decimal, first_index_is_unique, index_value};
use vstd::prelude::*;

verus! {

// Fields.

/// Reveals the names of the fields.
proof fn lemma_field_names()
    ensures
        "subject_id"@ == seq!['s', 'u', 'b', 'j', 'e', 'c', 't', '_', 'i', 'd'],
        "kind"@ == seq!['k', 'i', 'n', 'd'],
        "trust_level"@ == seq!['t', 'r', 'u', 's', 't', '_', 'l', 'e', 'v', 'e', 'l'],
        "auth_provider"@ == seq![
            'a', 'u', 't', 'h', '_', 'p', 'r', 'o', 'v', 'i', 'd', 'e', 'r',
        ],
        "attributes."@ == seq!['a', 't', 't', 'r', 'i', 'b', 'u', 't', 'e', 's', '.'],
        "roles"@ == seq!['r', 'o', 'l', 'e', 's'],
        "groups"@ == seq!['g', 'r', 'o', 'u', 'p', 's'],
        "scopes"@ == seq!['s', 'c', 'o', 'p', 'e', 's'],
{
    reveal_strlit("subject_id");
    reveal_strlit("kind");
    reveal_strlit("trust_level");
    reveal_strlit("auth_provider");
    reveal_strlit("attributes.");
    reveal_strlit("roles");
    reveal_strlit("groups");
    reveal_strlit("scopes");
    assert("subject_id"@ =~= seq!['s', 'u', 'b', 'j', 'e', 'c', 't', '_', 'i', 'd']);
    assert("kind"@ =~= seq!['k', 'i', 'n', 'd']);
    assert("trust_level"@ =~= seq!['t', 'r', 'u', 's', 't', '_', 'l', 'e', 'v', 'e', 'l']);
    assert("auth_provider"@ =~= seq![
        'a', 'u', 't', 'h', '_', 'p', 'r', 'o', 'v', 'i', 'd', 'e', 'r',
    ]);
    assert("attributes."@ =~= seq!['a', 't', 't', 'r', 'i', 'b', 'u', 't', 'e', 's', '.']);
    assert("roles"@ =~= seq!['r', 'o', 'l', 'e', 's']);
    assert("groups"@ =~= seq!['g', 'r', 'o', 'u', 'p', 's']);
    assert("scopes"@ =~= seq!['s', 'c', 'o', 'p', 'e', 's']);
}

/// Each field that is one value has the value of that name.
pub proof fn single_fields_have_the_value_of_their_name(identity: PluginIdentity)
    ensures
        field_value("kind"@, identity) == Some(identity.kind@),
        field_value("trust_level"@, identity) == Some(identity.trust_level@),
        identity.subject_id matches Some(subject) ==> field_value("subject_id"@, identity) == Some(
            subject@,
        ),
        identity.subject_id is None ==> field_value("subject_id"@, identity) is None,
        identity.auth_provider matches Some(provider) ==> field_value("auth_provider"@, identity)
            == Some(provider@),
        identity.auth_provider is None ==> field_value("auth_provider"@, identity) is None,
{
    lemma_field_names();
    assert("kind"@[0] == 'k' && "trust_level"@[0] == 't' && "auth_provider"@[0] == 'a'
        && "subject_id"@[0] == 's');
}

/// `attributes.` and a name is the attribute of that name, if the caller has it.
pub proof fn attributes_are_read_by_name(key: Seq<char>, identity: PluginIdentity)
    ensures
        identity.attributes@.dom().contains(key) ==> field_value("attributes."@ + key, identity)
            == Some(identity.attributes@[key]@),
        !identity.attributes@.dom().contains(key) ==> field_value(
            "attributes."@ + key,
            identity,
        ) is None,
{
    lemma_field_names();
    let field = "attributes."@ + key;
    assert(field[0] == 'a' && field[1] == 't');
    assert("kind"@[0] == 'k' && "trust_level"@[0] == 't' && "auth_provider"@[1] == 'u'
        && "subject_id"@[0] == 's');
    assert("attributes."@ =~= field.subrange(0, 11));
    assert(field.skip(11) =~= key);
}

/// A list's name, a position in brackets: what is read for each list, and for
/// the others.
proof fn lemma_indexed(name: Seq<char>, digits: Seq<char>, field: Seq<char>, other: Seq<char>)
    requires
        field == name + seq!['['] + digits + seq![']'],
        name.len() > 0,
        other.len() > 0,
        !other.contains('['),
        !name.contains('['),
    ensures
        indexed(field, name) == index_value(digits),
        other != name ==> indexed(field, other) is None,
{
    let prefix = name.push('[');
    assert(prefix =~= field.subrange(0, prefix.len() as int));
    assert(field.skip(prefix.len() as int) =~= digits.push(']'));
    assert(digits.push(']').drop_last() =~= digits);
    if other != name {
        let theirs = other.push('[');
        if theirs.is_prefix_of(field) {
            let n = other.len() as int;
            assert(theirs =~= field.subrange(0, n + 1));
            assert(field[n] == theirs[n]);
            if n < name.len() {
                assert(field[n] == name[n]);
                assert(name.contains(name[n]));
            } else if n > name.len() {
                assert(field[name.len() as int] == '[');
                assert(theirs[name.len() as int] == other[name.len() as int]);
                assert(other.contains(other[name.len() as int]));
            } else {
                assert forall|i: int| 0 <= i < n implies other[i] == name[i] by {
                    assert(theirs[i] == field[i]);
                }
                assert(other =~= name);
            }
        }
    }
}

proof fn lemma_list_names_have_no_bracket()
    ensures
        !"roles"@.contains('['),
        !"groups"@.contains('['),
        !"scopes"@.contains('['),
        "roles"@ != "groups"@,
        "roles"@ != "scopes"@,
        "groups"@ != "scopes"@,
        "roles"@.len() == 5,
        "groups"@.len() == 6,
        "scopes"@.len() == 6,
{
    lemma_field_names();
    assert("groups"@[0] == 'g' && "scopes"@[0] == 's');
}

/// A role is read by its position, however the position is written: the entry of
/// the caller's roles at it, if there are so many.
pub proof fn roles_are_read_by_position(digits: Seq<char>, n: usize, identity: PluginIdentity)
    requires
        index_value(digits) == Some(n),
    ensures
        n < identity.roles@.len() ==> field_value(
            "roles"@ + "["@ + digits + "]"@,
            identity,
        ) == Some(identity.roles@[n as int]@),
        n >= identity.roles@.len() ==> field_value(
            "roles"@ + "["@ + digits + "]"@,
            identity,
        ) is None,
{
    reveal_strlit("[");
    reveal_strlit("]");
    lemma_field_names();
    lemma_list_names_have_no_bracket();
    let field = "roles"@ + "["@ + digits + "]"@;
    assert(field =~= "roles"@ + seq!['['] + digits + seq![']']);
    lemma_indexed("roles"@, digits, field, "groups"@);
    assert(field[0] == 'r');
    assert("attributes."@.is_prefix_of(field) ==> field[0] == "attributes."@[0]);
    assert("kind"@[0] == 'k' && "trust_level"@[0] == 't' && "auth_provider"@[0] == 'a'
        && "subject_id"@[0] == 's');
}

/// A group is read by its position, however the position is written: the entry
/// of the caller's groups at it, if there are so many.
pub proof fn groups_are_read_by_position(digits: Seq<char>, n: usize, identity: PluginIdentity)
    requires
        index_value(digits) == Some(n),
    ensures
        n < identity.groups@.len() ==> field_value("groups"@ + "["@ + digits + "]"@, identity)
            == Some(identity.groups@[n as int]@),
        n >= identity.groups@.len() ==> field_value(
            "groups"@ + "["@ + digits + "]"@,
            identity,
        ) is None,
{
    reveal_strlit("[");
    reveal_strlit("]");
    lemma_field_names();
    lemma_list_names_have_no_bracket();
    let field = "groups"@ + "["@ + digits + "]"@;
    assert(field =~= "groups"@ + seq!['['] + digits + seq![']']);
    lemma_indexed("groups"@, digits, field, "roles"@);
    assert(field[0] == 'g');
    assert("attributes."@.is_prefix_of(field) ==> field[0] == "attributes."@[0]);
    assert("kind"@[0] == 'k' && "trust_level"@[0] == 't' && "auth_provider"@[0] == 'a'
        && "subject_id"@[0] == 's');
}

/// A scope is read by its position, however the position is written: the entry
/// of the caller's scopes at it, if there are so many.
pub proof fn scopes_are_read_by_position(digits: Seq<char>, n: usize, identity: PluginIdentity)
    requires
        index_value(digits) == Some(n),
    ensures
        n < identity.scopes@.len() ==> field_value("scopes"@ + "["@ + digits + "]"@, identity)
            == Some(identity.scopes@[n as int]@),
        n >= identity.scopes@.len() ==> field_value(
            "scopes"@ + "["@ + digits + "]"@,
            identity,
        ) is None,
{
    reveal_strlit("[");
    reveal_strlit("]");
    lemma_field_names();
    lemma_list_names_have_no_bracket();
    let field = "scopes"@ + "["@ + digits + "]"@;
    assert(field =~= "scopes"@ + seq!['['] + digits + seq![']']);
    lemma_indexed("scopes"@, digits, field, "roles"@);
    lemma_indexed("scopes"@, digits, field, "groups"@);
    assert(field[0] == 's' && field[1] == 'c');
    assert("attributes."@.is_prefix_of(field) ==> field[0] == "attributes."@[0]);
    assert("kind"@[0] == 'k' && "trust_level"@[0] == 't' && "auth_provider"@[0] == 'a'
        && "subject_id"@[1] == 'u');
}

/// `roles[n]`, with the position in decimal, is the entry of the caller's roles at
/// position `n`, and has no value at or beyond their number.
pub proof fn roles_have_the_entry_at_their_position(n: usize, identity: PluginIdentity)
    ensures
        n < identity.roles@.len() ==> field_value(
            "roles"@ + "["@ + decimal(n as nat) + "]"@,
            identity,
        ) == Some(identity.roles@[n as int]@),
        n >= identity.roles@.len() ==> field_value(
            "roles"@ + "["@ + decimal(n as nat) + "]"@,
            identity,
        ) is None,
{
    super::decimals_are_read_back(n);
    roles_are_read_by_position(decimal(n as nat), n, identity);
}

/// `groups[n]`, with the position in decimal, is the entry of the caller's groups at
/// position `n`, and has no value at or beyond their number.
pub proof fn groups_have_the_entry_at_their_position(n: usize, identity: PluginIdentity)
    ensures
        n < identity.groups@.len() ==> field_value(
            "groups"@ + "["@ + decimal(n as nat) + "]"@,
            identity,
        ) == Some(identity.groups@[n as int]@),
        n >= identity.groups@.len() ==> field_value(
            "groups"@ + "["@ + decimal(n as nat) + "]"@,
            identity,
        ) is None,
{
    super::decimals_are_read_back(n);
    groups_are_read_by_position(decimal(n as nat), n, identity);
}

/// `scopes[n]`, with the position in decimal, is the entry of the caller's scopes at
/// position `n`, and has no value at or beyond their number.
pub proof fn scopes_have_the_entry_at_their_position(n: usize, identity: PluginIdentity)
    ensures
        n < identity.scopes@.len() ==> field_value(
            "scopes"@ + "["@ + decimal(n as nat) + "]"@,
            identity,
        ) == Some(identity.scopes@[n as int]@),
        n >= identity.scopes@.len() ==> field_value(
            "scopes"@ + "["@ + decimal(n as nat) + "]"@,
            identity,
        ) is None,
{
    super::decimals_are_read_back(n);
    scopes_are_read_by_position(decimal(n as nat), n, identity);
}

/// A field that is none of these has no value.
pub proof fn other_fields_have_no_value(field: Seq<char>, identity: PluginIdentity)
    requires
        field != "subject_id"@,
        field != "kind"@,
        field != "trust_level"@,
        field != "auth_provider"@,
        forall|key: Seq<char>| field != #[trigger] ("attributes."@ + key),
        forall|digits: Seq<char>|
            #![trigger index_value(digits)]
            index_value(digits) is Some ==> field != "roles"@ + "["@ + digits + "]"@ && field
                != "groups"@ + "["@ + digits + "]"@ && field != "scopes"@ + "["@ + digits + "]"@,
    ensures
        field_value(field, identity) is None,
{
    if "attributes."@.is_prefix_of(field) {
        let key = field.skip("attributes."@.len() as int);
        assert(field =~= "attributes."@ + key);
    }
    lemma_position_form(field, "roles"@);
    lemma_position_form(field, "groups"@);
    lemma_position_form(field, "scopes"@);
}

proof fn lemma_position_form(field: Seq<char>, name: Seq<char>)
    ensures
        indexed(field, name) is Some ==> exists|digits: Seq<char>|
            #![trigger index_value(digits)]
            index_value(digits) is Some && field == name + "["@ + digits + "]"@,
{
    reveal_strlit("[");
    reveal_strlit("]");
    if indexed(field, name) is Some {
        let rest = field.skip(name.len() as int + 1);
        let digits = rest.drop_last();
        assert(name.push('[') =~= field.subrange(0, name.len() as int + 1));
        assert(index_value(digits) is Some);
        assert(field =~= name + "["@ + digits + "]"@) by {
            assert forall|i: int| 0 <= i <= name.len() implies field[i] == name.push('[')[i] by {
                assert(field.subrange(0, name.len() as int + 1)[i] == field[i]);
            }
            assert(rest =~= digits.push(']'));
        }
    }
}

// Which account is selected.

/// A static target has the operator's account, whoever calls.
pub proof fn static_mapping_selects_the_operators_account(
    identity: PluginIdentity,
    target: TargetConfig,
)
    requires
        target.identity_mapping == IdentityMapping::Static,
    ensures
        resolution(identity, target) == (ResolutionView::Target {
            email: target.service_account@,
            identity_derived: false,
        }),
{
}

/// With a mapping by subject, a caller's subject that is not empty is the
/// account, and comes from the caller, whatever the fallback is. Without one the
/// fallback is, and where there is none either, the mapping is empty.
pub proof fn subject_mapping_selects_the_subject(identity: PluginIdentity, target: TargetConfig)
    requires
        target.identity_mapping == IdentityMapping::SubjectId,
    ensures
        identity.subject_id matches Some(subject) && subject@.len() > 0 ==> resolution(
            identity,
            target,
        ) == (ResolutionView::Target { email: identity.subject_id->0@, identity_derived: true }),
        (identity.subject_id is None || identity.subject_id->0@.len() == 0)
            && target.service_account@.len() > 0 ==> resolution(identity, target) == (
        ResolutionView::Target { email: target.service_account@, identity_derived: false }),
        (identity.subject_id is None || identity.subject_id->0@.len() == 0)
            && target.service_account@.len() == 0 ==> resolution(identity, target) == (
        ResolutionView::EmptyDerived {
            reason: "identity has no subject_id and no static fallback service_account"@,
        }),
{
}

/// With a mapping by role, a caller's first role that is not empty is the
/// account, and comes from the caller, whatever the fallback is and whatever the
/// other roles are. Without one the fallback is, and where there is none either,
/// the mapping is empty.
pub proof fn role_mapping_selects_the_first_role(identity: PluginIdentity, target: TargetConfig)
    requires
        target.identity_mapping == IdentityMapping::FromRole,
    ensures
        identity.roles@.len() > 0 && identity.roles@[0]@.len() > 0 ==> resolution(identity, target)
            == (ResolutionView::Target { email: identity.roles@[0]@, identity_derived: true }),
        (identity.roles@.len() == 0 || identity.roles@[0]@.len() == 0)
            && target.service_account@.len() > 0 ==> resolution(identity, target) == (
        ResolutionView::Target { email: target.service_account@, identity_derived: false }),
        (identity.roles@.len() == 0 || identity.roles@[0]@.len() == 0)
            && target.service_account@.len() == 0 ==> resolution(identity, target) == (
        ResolutionView::EmptyDerived {
            reason: "identity has no roles and no static fallback service_account"@,
        }),
{
}

/// With a mapping by template, what the template expands to is the account, and
/// comes from the caller. Where that is nothing the mapping is empty, and where
/// the template fails the field that it failed at is told.
pub proof fn template_mapping_selects_the_expansion(
    identity: PluginIdentity,
    target: TargetConfig,
    template: String,
)
    requires
        target.identity_mapping == IdentityMapping::Template,
        target.service_account_template == Some(template),
    ensures
        match expand(template@, identity) {
            Expansion::Text { text } => {
                &&& text.len() > 0 ==> resolution(identity, target) == (ResolutionView::Target {
                    email: text,
                    identity_derived: true,
                })
                &&& text.len() == 0 ==> resolution(identity, target) == (
                ResolutionView::EmptyDerived {
                    reason: "template substitution produced an empty service-account email"@,
                })
            },
            Expansion::Failed { field } => resolution(identity, target) == (
            ResolutionView::SubstitutionFailed { field }),
        },
        template_resolution(template@, identity) == resolution(identity, target),
{
}

/// An account that comes from the caller does not depend on the operator's
/// account: another target with the same mapping and template, whatever its
/// account, selects the same one.
pub proof fn derived_accounts_ignore_the_fallback(
    identity: PluginIdentity,
    a: TargetConfig,
    b: TargetConfig,
)
    requires
        a.identity_mapping == b.identity_mapping,
        a.service_account_template == b.service_account_template,
        resolution(identity, a) matches ResolutionView::Target { identity_derived: true, .. },
    ensures
        resolution(identity, b) == resolution(identity, a),
{
}

/// Where the fallback is used, or nothing is found, the caller has nothing that
/// the mapping looks for; so a caller who has is never given the fallback.
pub proof fn fallbacks_are_for_callers_without_the_field(
    identity: PluginIdentity,
    target: TargetConfig,
)
    requires
        target.identity_mapping != IdentityMapping::Static,
        resolution(identity, target) matches ResolutionView::Target {
            identity_derived: false,
            ..
        },
    ensures
        target.identity_mapping == IdentityMapping::SubjectId ==> identity.subject_id is None
            || identity.subject_id->0@.len() == 0,
        target.identity_mapping == IdentityMapping::FromRole ==> identity.roles@.len() == 0
            || identity.roles@[0]@.len() == 0,
        target.identity_mapping != IdentityMapping::Template,
{
}

/// What is told of a resolution is what it holds.
pub proof fn resolutions_show_what_they_hold(r: Resolution)
    ensures
        match r {
            Resolution::Target { email, identity_derived } => r@ == (ResolutionView::Target {
                email: email@,
                identity_derived,
            }),
            Resolution::EmptyDerived { reason } => r@ == (ResolutionView::EmptyDerived {
                reason: reason@,
            }),
            Resolution::SubstitutionFailed { field } => r@ == (ResolutionView::SubstitutionFailed {
                field: field@,
            }),
        },
{
}

// Templates.

/// A template in which no `${` stands is kept as it is.
pub proof fn templates_without_placeholders_stand_for_themselves(
    template: Seq<char>,
    identity: PluginIdentity,
)
    requires
        forall|i: int|
            0 <= i < template.len() - 1 && #[trigger] template[i] == '$' ==> template[i + 1] != '{',
    ensures
        expand(template, identity) == (Expansion::Text { text: template }),
{
    assert forall|i: int| 0 <= i < template.len() implies !opens_placeholder(
        #[trigger] template.skip(i),
    ) by {
        if template.len() - i >= 2 {
            assert(template.skip(i)[0] == template[i]);
            assert(template.skip(i)[1] == template[i + 1]);
        }
    }
    super::plain_templates_are_kept(template, identity);
}

/// A placeholder with text before and behind it: where the caller has the field,
/// and it is not empty, its value takes the place of the placeholder, and the
/// rest is expanded; else the template fails with the field.
pub proof fn a_placeholder_takes_the_value_of_its_field(
    before: Seq<char>,
    field: Seq<char>,
    after: Seq<char>,
    identity: PluginIdentity,
)
    requires
        !before.contains('$'),
        !field.contains('}'),
    ensures
        ({
            let template = before + "${identity."@ + field + "}"@ + after;
            match field_value(field, identity) {
                Some(value) if value.len() > 0 => match expand(after, identity) {
                    Expansion::Text { text } => expand(template, identity) == (Expansion::Text {
                        text: before + value + text,
                    }),
                    Expansion::Failed { field: failed } => expand(template, identity) == (
                    Expansion::Failed { field: failed }),
                },
                _ => expand(template, identity) == (Expansion::Failed { field }),
            }
        }),
{
    let template = before + "${identity."@ + field + "}"@ + after;
    let rest = "${identity."@ + field + "}"@ + after;
    assert(template =~= before + rest);
    assert forall|i: int| 0 <= i < before.len() implies #[trigger] before[i] != '$' by {
        assert(before.contains(before[i]));
    }
    assert forall|i: int| 0 <= i < field.len() implies #[trigger] field[i] != '}' by {
        assert(field.contains(field[i]));
    }
    super::text_before_a_placeholder_is_kept(before, rest, identity);
    super::placeholders_are_replaced(field, after, identity);
    if let Some(value) = field_value(field, identity) {
        if let Expansion::Text { text } = expand(after, identity) {
            assert(before + (value + text) =~= before + value + text);
        }
    }
}

/// `identity.` may be left out.
pub proof fn a_short_placeholder_means_the_same(
    field: Seq<char>,
    after: Seq<char>,
    identity: PluginIdentity,
)
    requires
        !field.contains('}'),
        !"identity."@.is_prefix_of(field),
    ensures
        expand("${"@ + field + "}"@ + after, identity) == expand(
            "${identity."@ + field + "}"@ + after,
            identity,
        ),
{
    assert forall|i: int| 0 <= i < field.len() implies #[trigger] field[i] != '}' by {
        assert(field.contains(field[i]));
    }
    super::placeholders_are_replaced(field, after, identity);
    super::short_placeholders_are_replaced(field, after, identity);
}

/// A placeholder that does not end fails the template, and is told.
pub proof fn an_open_placeholder_fails(
    before: Seq<char>,
    open: Seq<char>,
    identity: PluginIdentity,
)
    requires
        !before.contains('$'),
        !open.contains('}'),
    ensures
        expand(before + "${"@ + open, identity) == (Expansion::Failed {
            field: "unterminated placeholder `${"@ + open + "`"@,
        }),
{
    reveal_strlit("${");
    let rest = "${"@ + open;
    assert(before + "${"@ + open =~= before + rest);
    assert forall|i: int| 0 <= i < before.len() implies #[trigger] before[i] != '$' by {
        assert(before.contains(before[i]));
    }
    super::text_before_a_placeholder_is_kept(before, rest, identity);
    assert(rest.skip(2) =~= open);
    assert forall|j: int| 0 <= j < open.len() implies open[j] != '}' by {
        assert(open.contains(open[j]));
    }
    first_index_is_unique(open, '}', open.len() as int);
    assert(opens_placeholder(rest));
}

// Emails and delegates.

/// Whether a character may stand in the name of a service account.
pub open spec fn is_account_char(c: char) -> bool {
    'a' <= c <= 'z' || '0' <= c <= '9' || c == '-'
}

/// A service account's email, in full: a name of lowercase letters, digits and
/// hyphens, an at sign, and a domain of those and dots, no two in a row, that is
/// `gserviceaccount.com` or ends in it behind a dot; 320 characters at most.
pub proof fn emails_are_names_at_the_account_domain(name: Seq<char>, domain: Seq<char>)
    requires
        !name.contains('@'),
    ensures
        is_sa_email(name + "@"@ + domain) <==> {
            &&& name.len() > 0
            &&& name.len() + 1 + domain.len() <= 320
            &&& forall|i: int| 0 <= i < name.len() ==> is_account_char(#[trigger] name[i])
            &&& forall|i: int|
                0 <= i < domain.len() ==> is_account_char(#[trigger] domain[i]) || domain[i] == '.'
            &&& forall|i: int|
                0 <= i < domain.len() - 1 ==> !(#[trigger] domain[i] == '.' && domain[i + 1] == '.')
            &&& domain == "gserviceaccount.com"@ || (domain.len() >= 20 && domain.skip(
                domain.len() - 20,
            ) == ".gserviceaccount.com"@)
        },
{
    reveal_strlit("@");
    reveal_strlit(".gserviceaccount.com");
    let email = name + "@"@ + domain;
    let n = name.len() as int;
    assert(email[n] == '@');
    assert(email.take(n) =~= name);
    assert(email.skip(n + 1) =~= domain);
    assert(".gserviceaccount.com"@.len() == 20);
    assert(".gserviceaccount.com"@.is_suffix_of(domain) <==> (domain.len() >= 20 && domain.skip(
        domain.len() - 20,
    ) == ".gserviceaccount.com"@)) by {
        if domain.len() >= 20 {
            assert(domain.skip(domain.len() - 20) =~= domain.subrange(
                domain.len() - 20,
                domain.len() as int,
            ));
        }
    }
    if is_sa_email(email) {
        let at = choose|at: int| is_sa_email_with_at(email, at);
        if at < n {
            assert(name[at] == email[at]);
            assert(name.contains(name[at]));
        } else if at > n {
            assert(email.take(at)[n] == '@');
            assert(is_name_char(email.take(at)[n]));
        }
        assert(at == n);
        assert forall|i: int| 0 <= i < name.len() implies is_account_char(#[trigger] name[i]) by {
            assert(is_name_char(name[i]));
        }
        assert forall|i: int| 0 <= i < domain.len() implies is_account_char(#[trigger] domain[i])
            || domain[i] == '.' by {
            assert(is_domain_char(domain[i]));
        }
        assert forall|i: int| 0 <= i < domain.len() - 1 implies !(#[trigger] domain[i] == '.'
            && domain[i + 1] == '.') by {
            if domain[i] == '.' && domain[i + 1] == '.' {
                assert(has_double_dot(domain));
            }
        }
    }
    if {
        &&& name.len() > 0
        &&& name.len() + 1 + domain.len() <= 320
        &&& forall|i: int| 0 <= i < name.len() ==> is_account_char(#[trigger] name[i])
        &&& forall|i: int|
            0 <= i < domain.len() ==> is_account_char(#[trigger] domain[i]) || domain[i] == '.'
        &&& forall|i: int|
            0 <= i < domain.len() - 1 ==> !(#[trigger] domain[i] == '.' && domain[i + 1] == '.')
        &&& domain == "gserviceaccount.com"@ || (domain.len() >= 20 && domain.skip(
            domain.len() - 20,
        ) == ".gserviceaccount.com"@)
    } {
        assert forall|i: int| 0 <= i < name.len() implies is_name_char(#[trigger] name[i]) by {
            assert(is_account_char(name[i]));
        }
        assert forall|i: int| 0 <= i < domain.len() implies is_domain_char(
            #[trigger] domain[i],
        ) by {
            assert(is_account_char(domain[i]) || domain[i] == '.');
        }
        assert(is_sa_domain(domain));
        assert(is_sa_email_with_at(email, n));
    }
}

/// A text without an at sign is no email.
pub proof fn emails_have_an_at_sign(text: Seq<char>)
    requires
        !text.contains('@'),
    ensures
        !is_sa_email(text),
{
    if is_sa_email(text) {
        let at = choose|at: int| is_sa_email_with_at(text, at);
        assert(text.contains(text[at]));
    }
}

/// A delegate is an email, or `projects/-/serviceAccounts/` and an email; and its
/// resource name is the latter.
pub proof fn delegates_are_emails_or_resource_names(d: Seq<char>)
    ensures
        is_delegate("projects/-/serviceAccounts/"@ + d) == is_sa_email(d),
        resource_name("projects/-/serviceAccounts/"@ + d) == "projects/-/serviceAccounts/"@ + d,
        !"projects/-/serviceAccounts/"@.is_prefix_of(d) ==> is_delegate(d) == is_sa_email(d),
        !"projects/-/serviceAccounts/"@.is_prefix_of(d) ==> resource_name(d)
            == "projects/-/serviceAccounts/"@ + d,
{
    let prefix = "projects/-/serviceAccounts/"@;
    assert(prefix == RESOURCE_PREFIX@);
    let long = prefix + d;
    assert(prefix =~= long.subrange(0, prefix.len() as int));
    assert(long.skip(prefix.len() as int) =~= d);
}

} // verus!
