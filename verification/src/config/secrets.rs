//! Secret references: `env:VAR` and `keyring:service/entry`, never values.

use vstd::prelude::*;

use crate::text;

verus! {

/// What is said of a scheme that may be the first half of a password.
pub const WITHHELD_SCHEME: &'static str = "<withheld>";

/// Scheme names that are safe to repeat, because they are these literals.
pub open spec fn is_echoable(name: Seq<char>) -> bool {
    ||| name == "env"@
    ||| name == "keyring"@
    ||| name == "file"@
    ||| name == "vault"@
    ||| name == "secret"@
    ||| name == "op"@
    ||| name == "http"@
    ||| name == "https"@
    ||| name == "postgres"@
    ||| name == "postgresql"@
}

/// What may be said of the scheme of a rejected value: the name of a known
/// scheme, whatever its letters' case, or that it is withheld.
pub open spec fn scheme_shown(reference: Seq<char>) -> Seq<char> {
    match text::halves(reference, ':') {
        Some((scheme, _)) => if is_echoable(text::ascii_lowered(scheme)) {
            text::ascii_lowered(scheme)
        } else {
            WITHHELD_SCHEME@
        },
        None => WITHHELD_SCHEME@,
    }
}

fn echoable(name: &str) -> (b: bool)
    ensures
        b == is_echoable(name@),
{
    text::same(name, "env") || text::same(name, "keyring") || text::same(name, "file")
        || text::same(name, "vault") || text::same(name, "secret") || text::same(name, "op")
        || text::same(name, "http") || text::same(name, "https") || text::same(name, "postgres")
        || text::same(name, "postgresql")
}

/// The scheme part of a reference, as far as it is safe to echo. Anything but a
/// known scheme name is withheld: a pasted password may well contain a colon.
pub fn scheme_of(reference: &str) -> (shown: String)
    ensures
        shown@ == scheme_shown(reference@),
{
    match text::split_once(reference, ':') {
        Some((scheme, _)) => {
            let name = text::to_ascii_lowercase(scheme);
            if echoable(name.as_str()) {
                name
            } else {
                WITHHELD_SCHEME.to_owned()
            }
        },
        None => WITHHELD_SCHEME.to_owned(),
    }
}

/// Nothing of a rejected value is ever repeated: what is shown is one of a
/// fixed list of names.
pub proof fn law_rejected_value_is_withheld(reference: Seq<char>)
    ensures
        is_echoable(scheme_shown(reference)) || scheme_shown(reference) == WITHHELD_SCHEME@,
{
}

/// Whether a text has the form of a secret reference.
pub open spec fn is_secret_ref(reference: Seq<char>) -> bool {
    "env:"@.is_prefix_of(reference) || "keyring:"@.is_prefix_of(reference)
}

/// What is told of a field that holds something else. The value is not in it.
pub open spec fn not_a_reference(field: Seq<char>, shown: Seq<char>) -> Seq<char> {
    field + " (scheme "@ + text::debug_text(shown)
        + ") is not a secret reference — secrets must be `env:VAR` or `keyring:service/entry` references, never literal values (invariant 5); the rejected value is withheld from this message"@
}

pub open spec fn secret_ref_fault(field: Seq<char>, reference: Seq<char>) -> Option<Seq<char>> {
    if is_secret_ref(reference) {
        None
    } else {
        Some(not_a_reference(field, scheme_shown(reference)))
    }
}

pub fn validate_secret_ref_named(field: &str, reference: &str) -> (r: Result<(), String>)
    ensures
        match r {
            Ok(()) => secret_ref_fault(field@, reference@) is None,
            Err(e) => secret_ref_fault(field@, reference@) == Some(e@),
        },
{
    if text::starts_with(reference, "env:") || text::starts_with(reference, "keyring:") {
        return Ok(());
    }
    let shown = text::quoted(scheme_of(reference).as_str());
    let head = text::concat3(field, " (scheme ", shown.as_str());
    Err(
        text::concat2(
            head.as_str(),
            ") is not a secret reference — secrets must be `env:VAR` or `keyring:service/entry` references, never literal values (invariant 5); the rejected value is withheld from this message",
        ),
    )
}

pub fn validate_secret_ref(reference: &str) -> (r: Result<(), String>)
    ensures
        match r {
            Ok(()) => secret_ref_fault("database.url_secret"@, reference@) is None,
            Err(e) => secret_ref_fault("database.url_secret"@, reference@) == Some(e@),
        },
{
    validate_secret_ref_named("database.url_secret", reference)
}

/// Where the value of a reference is to be looked up.
pub enum SecretSource {
    /// An environment variable.
    Env { var: String },
    /// An entry of the keyring.
    Keyring { service: String, entry: String },
}

/// Where a reference points, as views.
pub enum SourceView {
    Env { var: Seq<char> },
    Keyring { service: Seq<char>, entry: Seq<char> },
}

impl View for SecretSource {
    type V = SourceView;

    open spec fn view(&self) -> SourceView {
        match self {
            SecretSource::Env { var } => SourceView::Env { var: var@ },
            SecretSource::Keyring { service, entry } => SourceView::Keyring {
                service: service@,
                entry: entry@,
            },
        }
    }
}

/// Where the value of a reference is looked up, or what is told of it.
pub open spec fn source_of(reference: Seq<char>) -> Result<SourceView, Seq<char>> {
    if "env:"@.is_prefix_of(reference) {
        Ok(SourceView::Env { var: reference.skip(4) })
    } else if "keyring:"@.is_prefix_of(reference) {
        match text::halves(reference.skip(8), '/') {
            Some((service, entry)) => if service.len() > 0 && entry.len() > 0 {
                Ok(SourceView::Keyring { service, entry })
            } else {
                Err("keyring reference has invalid shape"@)
            },
            None => Err("keyring reference has invalid shape"@),
        }
    } else {
        Err(
            "secret reference with scheme "@ + text::debug_text(scheme_shown(reference))
                + " is not supported (env: or keyring:); the value is withheld from this message"@,
        )
    }
}

/// Decide where a reference is looked up.
pub fn secret_source(reference: &str) -> (r: Result<SecretSource, String>)
    ensures
        match (r, source_of(reference@)) {
            (Ok(source), Ok(view)) => source@ == view,
            (Err(e), Err(told)) => e@ == told,
            _ => false,
        },
{
    proof {
        reveal_strlit("env:");
        reveal_strlit("keyring:");
    }
    if let Some(var) = text::strip_prefix(reference, "env:") {
        return Ok(SecretSource::Env { var: var.to_owned() });
    }
    if let Some(key) = text::strip_prefix(reference, "keyring:") {
        return match text::split_once(key, '/') {
            Some((service, entry)) => if service.is_empty() || entry.is_empty() {
                Err("keyring reference has invalid shape".to_owned())
            } else {
                Ok(SecretSource::Keyring { service: service.to_owned(), entry: entry.to_owned() })
            },
            None => Err("keyring reference has invalid shape".to_owned()),
        };
    }
    let shown = text::quoted(scheme_of(reference).as_str());
    Err(
        text::concat3(
            "secret reference with scheme ",
            shown.as_str(),
            " is not supported (env: or keyring:); the value is withheld from this message",
        ),
    )
}

/// What is told of a reference to a variable that is not set.
pub open spec fn variable_not_set(reference: Seq<char>, var: Seq<char>) -> Seq<char> {
    "secret reference "@ + text::debug_text(reference) + ": environment variable "@ + var
        + " is not set"@
}

/// Resolve a reference, given what the environment holds under the variable it
/// names and what the keyring said of the entry it names. Each is only looked
/// at where the reference is of its kind.
pub fn resolve_secret_ref_with(
    reference: &str,
    env_value: Option<String>,
    keyring_value: Result<String, String>,
) -> (r: Result<String, String>)
    ensures
        resolves(reference@, env_value, keyring_value, r),
        match source_of(reference@) {
            Err(told) => r matches Err(e) && e@ == told,
            Ok(SourceView::Env { var }) => match env_value {
                Some(value) => r == Ok::<String, String>(value),
                None => r matches Err(e) && e@ == variable_not_set(reference@, var),
            },
            Ok(SourceView::Keyring { .. }) => r == keyring_value,
        },
{
    match secret_source(reference) {
        Err(e) => Err(e),
        Ok(SecretSource::Env { var }) => match env_value {
            Some(value) => Ok(value),
            None => {
                let shown = text::quoted(reference);
                let head = text::concat3(
                    "secret reference ",
                    shown.as_str(),
                    ": environment variable ",
                );
                Err(text::concat3(head.as_str(), var.as_str(), " is not set"))
            },
        },
        Ok(SecretSource::Keyring { service: _, entry: _ }) => keyring_value,
    }
}

/// What has the form of a reference is looked up and nothing else is; of the
/// two forms only a keyring reference can still be misshapen.
pub proof fn law_only_references_resolve(reference: Seq<char>)
    ensures
        source_of(reference) is Ok ==> is_secret_ref(reference),
        "env:"@.is_prefix_of(reference) ==> source_of(reference) is Ok,
{
}

/// A reference names its source: what follows `env:` is the variable, and what
/// follows `keyring:` is the service and the entry, with the first slash between
/// them and neither of them empty. Nothing else names one.
pub proof fn law_references_name_their_source(
    reference: Seq<char>,
    var: Seq<char>,
    service: Seq<char>,
    entry: Seq<char>,
)
    ensures
        source_of("env:"@ + var) == Ok::<SourceView, Seq<char>>(SourceView::Env { var }),
        service.len() > 0 && entry.len() > 0 && !service.contains('/') ==> source_of(
            "keyring:"@ + (service + seq!['/'] + entry),
        ) == Ok::<SourceView, Seq<char>>(SourceView::Keyring { service, entry }),
        source_of(reference) matches Ok(SourceView::Env { var: v }) ==> reference == "env:"@ + v,
        source_of(reference) matches Ok(SourceView::Keyring { service: s, entry: e }) ==> reference
            == "keyring:"@ + (s + seq!['/'] + e) && s.len() > 0 && e.len() > 0 && !s.contains('/'),
        is_secret_ref("env:"@ + var) && is_secret_ref("keyring:"@ + var),
        is_secret_ref(reference) <==> text::stripped(reference, "env:"@) is Some || text::stripped(
            reference,
            "keyring:"@,
        ) is Some,
{
    reveal_strlit("env:");
    reveal_strlit("keyring:");
    assert("env:"@.len() == 4 && "env:"@[0] == 'e');
    assert("keyring:"@.len() == 8 && "keyring:"@[0] == 'k');
    assert(("env:"@ + var).skip(4) =~= var);
    let both = service + seq!['/'] + entry;
    let whole = "keyring:"@ + both;
    assert(whole.skip(8) =~= both);
    assert(whole[0] == 'k');
    assert(!"env:"@.is_prefix_of(whole)) by {
        if "env:"@.is_prefix_of(whole) {
            assert(whole.subrange(0, 4)[0] == "env:"@[0]);
        }
    }
    if !service.contains('/') {
        text::lemma_halves_at_first(service, '/', entry);
    }
    if "env:"@.is_prefix_of(reference) {
        assert(reference =~= "env:"@ + reference.skip(4));
    } else if "keyring:"@.is_prefix_of(reference) {
        assert(reference =~= "keyring:"@ + reference.skip(8));
        text::law_halves_meet_at_the_separator(reference.skip(8), '/');
    }
}

/// What is said of a rejected value is its scheme in lower case, where that is
/// one of those that give nothing away, and else nothing.
pub proof fn law_only_a_known_scheme_is_said(reference: Seq<char>, scheme: Seq<char>, rest: Seq<char>)
    requires
        !scheme.contains(':'),
    ensures
        is_echoable(text::ascii_lowered(scheme)) ==> scheme_shown(scheme + seq![':'] + rest)
            == text::ascii_lowered(scheme),
        !is_echoable(text::ascii_lowered(scheme)) ==> scheme_shown(scheme + seq![':'] + rest)
            == "<withheld>"@,
        !reference.contains(':') ==> scheme_shown(reference) == "<withheld>"@,
        is_echoable(scheme) <==> seq![
            "env"@,
            "keyring"@,
            "file"@,
            "vault"@,
            "secret"@,
            "op"@,
            "http"@,
            "https"@,
            "postgres"@,
            "postgresql"@,
        ].contains(scheme),
{
    text::lemma_halves_at_first(scheme, ':', rest);
    text::law_halves_meet_at_the_separator(reference, ':');
    if let Some((before, behind)) = text::halves(reference, ':') {
        assert(reference[before.len() as int] == ':');
        assert(reference.contains(':'));
    }
    let known = seq![
        "env"@,
        "keyring"@,
        "file"@,
        "vault"@,
        "secret"@,
        "op"@,
        "http"@,
        "https"@,
        "postgres"@,
        "postgresql"@,
    ];
    assert(known[0] == "env"@ && known[1] == "keyring"@ && known[2] == "file"@ && known[3]
        == "vault"@ && known[4] == "secret"@ && known[5] == "op"@ && known[6] == "http"@ && known[7]
        == "https"@ && known[8] == "postgres"@ && known[9] == "postgresql"@);
    if known.contains(scheme) {
        let i = choose|i: int| 0 <= i < known.len() && known[i] == scheme;
        assert(is_echoable(known[i]));
    }
}

/// A value that is no reference is refused under the name of its field, and the
/// value itself is not said; a variable that is not set is said by its name.
pub proof fn law_a_refused_reference_is_named(
    field: Seq<char>,
    reference: Seq<char>,
    other: Seq<char>,
    var: Seq<char>,
)
    ensures
        secret_ref_fault(field, reference) is None <==> is_secret_ref(reference),
        secret_ref_fault(field, reference) matches Some(told) ==> field.is_prefix_of(told),
        !is_secret_ref(reference) && !is_secret_ref(other) && scheme_shown(reference)
            == scheme_shown(other) ==> secret_ref_fault(field, reference) == secret_ref_fault(
            field,
            other,
        ),
        text::has_part(variable_not_set(reference, var), var),
{
    if !is_secret_ref(reference) {
        let told = not_a_reference(field, scheme_shown(reference));
        assert(told.take(field.len() as int) =~= field);
    }
    text::law_parts_stand_between_others(
        seq![],
        var,
        "secret reference "@ + text::debug_text(reference) + ": environment variable "@,
        " is not set"@,
    );
}

/// What a reference resolves to, given what the two places hold for it.
pub open spec fn resolves(
    reference: Seq<char>,
    env_value: Option<String>,
    keyring_value: Result<String, String>,
    r: Result<String, String>,
) -> bool {
    match source_of(reference) {
        Err(told) => r matches Err(e) && e@ == told,
        Ok(SourceView::Env { var }) => match env_value {
            Some(value) => r == Ok::<String, String>(value),
            None => r matches Err(e) && e@ == variable_not_set(reference, var),
        },
        Ok(SourceView::Keyring { .. }) => r == keyring_value,
    }
}

/// A secret comes from the place that its reference names and from no other:
/// from the environment where the variable is set, from the keyring where it has
/// the entry.
pub proof fn law_a_secret_comes_from_its_place(
    reference: Seq<char>,
    env_value: Option<String>,
    keyring_value: Result<String, String>,
    r: Result<String, String>,
)
    requires
        resolves(reference, env_value, keyring_value, r),
    ensures
        "env:"@.is_prefix_of(reference) ==> (r is Ok <==> env_value is Some),
        "env:"@.is_prefix_of(reference) && r is Ok ==> env_value == Some(r->Ok_0),
        source_of(reference) matches Ok(SourceView::Keyring { service, entry }) ==> r == keyring_value,
        source_of(reference) is Err ==> r is Err,
{
}

} // verus!
