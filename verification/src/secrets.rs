//! Secrets: where they may be read from, and the header fields they go into.

use vstd::prelude::*;
use crate::config::HarnessConfig;
use crate::errors;
use crate::errors::PipelineError;
use crate::headers;
use crate::text;

verus! {

/// What a directory entry is.
#[derive(Debug)]
pub struct FileStat {
    pub is_symlink: bool,
    pub is_file: bool,
    /// The permission bits.
    pub mode: u32,
    /// The kind of the entry, in words.
    pub kind: String,
}

/// The digit that writes a number below eight.
pub open spec fn octal_digit(d: nat) -> char {
    ((48 + d) as u32) as char
}

/// Three octal digits.
pub open spec fn octal3(n: nat) -> Seq<char> {
    seq![octal_digit(n / 64 % 8), octal_digit(n / 8 % 8), octal_digit(n % 8)]
}

/// The lowest nine permission bits.
pub open spec fn permission_bits(mode: u32) -> nat {
    (mode % 512) as nat
}

/// Whether no one but the owner may read, write or execute.
pub open spec fn owner_only(mode: u32) -> bool {
    mode % 64 == 0
}

/// Three octal digits.
fn octal(n: u32) -> (s: String)
    requires
        n < 512,
    ensures
        s@ == octal3(n as nat),
{
    let mut s: String = String::new();
    s.push((48u8 + (n / 64 % 8) as u8) as char);
    s.push((48u8 + (n / 8 % 8) as u8) as char);
    s.push((48u8 + (n % 8) as u8) as char);
    assert(s@ =~= octal3(n as nat));
    s
}

/// What is wrong with a file that holds a key or a token, if anything is: a
/// link might be planted, and others must not be able to read it.
pub open spec fn secret_file_fault(path: Seq<char>, stat: FileStat) -> Option<Seq<char>> {
    if stat.is_symlink {
        Some("secret file "@ + path + " is a symbolic link; refusing to follow"@)
    } else if !stat.is_file {
        Some("secret file "@ + path + " is not a regular file"@)
    } else if !owner_only(stat.mode) {
        Some(
            "secret file "@ + path + " has mode 0o"@ + octal3(permission_bits(stat.mode))
                + "; must be owner-only (chmod 600 "@ + path + ")"@,
        )
    } else {
        None
    }
}

/// Whether a file may hold a key or a token. `stat` is the entry itself, not
/// what a link points at.
pub fn require_owner_only_secret(path: &str, stat: &Result<FileStat, String>) -> (checked: Result<(), String>)
    ensures
        match *stat {
            Err(words) => checked matches Err(e) && e@ == "stat secret file "@ + path@ + ": "@ + words@,
            Ok(entry) => match secret_file_fault(path@, entry) {
                Some(fault) => checked matches Err(e) && e@ == fault,
                None => checked is Ok,
            },
        },
{
    let entry: &FileStat = match stat {
        Ok(entry) => entry,
        Err(words) => {
            let mut e: String = text::concat3("stat secret file ", path, ": ");
            e.append(words.as_str());
            return Err(e);
        },
    };
    if entry.is_symlink {
        return Err(text::concat3("secret file ", path, " is a symbolic link; refusing to follow"));
    }
    if !entry.is_file {
        return Err(text::concat3("secret file ", path, " is not a regular file"));
    }
    if entry.mode % 64 != 0 {
        let mut e: String = text::concat3("secret file ", path, " has mode 0o");
        e.append(octal(entry.mode % 512).as_str());
        e.append("; must be owner-only (chmod 600 ");
        e.append(path);
        e.append(")");
        return Err(e);
    }
    Ok(())
}

/// What is wrong with a file that holds a seed or a shared secret, if
/// anything is.
pub open spec fn seed_file_fault(path: Seq<char>, stat: FileStat) -> Option<Seq<char>> {
    if stat.is_symlink {
        Some(
            "secret file "@ + path
                + " is a symbolic link; refusing to follow (remove the link and store the seed inline at this path)"@,
        )
    } else if !stat.is_file {
        Some("secret file "@ + path + " is not a regular file (type: "@ + stat.kind@ + ")"@)
    } else if !owner_only(stat.mode) {
        Some(
            "secret file "@ + path + " has mode 0o"@ + octal3(permission_bits(stat.mode))
                + "; must be 0o600 (chmod 600 "@ + path + ")"@,
        )
    } else {
        None
    }
}

/// Whether a file may hold a seed or a shared secret.
pub fn require_owner_only_mode(path: &str, entry: &FileStat) -> (checked: Result<(), String>)
    ensures
        match checked {
            Ok(()) => seed_file_fault(path@, *entry) is None,
            Err(e) => seed_file_fault(path@, *entry) == Some(e@),
        },
{
    if entry.is_symlink {
        return Err(
            text::concat3(
                "secret file ",
                path,
                " is a symbolic link; refusing to follow (remove the link and store the seed inline at this path)",
            ),
        );
    }
    if !entry.is_file {
        let mut e: String = text::concat3("secret file ", path, " is not a regular file (type: ");
        e.append(entry.kind.as_str());
        e.append(")");
        return Err(e);
    }
    if entry.mode % 64 != 0 {
        let mut e: String = text::concat3("secret file ", path, " has mode 0o");
        e.append(octal(entry.mode % 512).as_str());
        e.append("; must be 0o600 (chmod 600 ");
        e.append(path);
        e.append(")");
        return Err(e);
    }
    Ok(())
}

/// A secret is read only from a plain file that is its owner's alone.
pub proof fn law_secrets_come_from_private_files(path: Seq<char>, stat: FileStat)
    ensures
        secret_file_fault(path, stat) is None <==> seed_file_fault(path, stat) is None,
        secret_file_fault(path, stat) is None <==> !stat.is_symlink && stat.is_file && owner_only(stat.mode),
{
}

/// A secret in a file: what checking the entry gave, and what reading it gave.
pub struct SecretFile {
    pub path: String,
    pub stat: Result<FileStat, String>,
    pub content: Result<String, String>,
}

/// What a secret in the environment comes to.
pub open spec fn env_secret(what: Seq<char>, name: Seq<char>, value: Option<String>) -> Result<
    Seq<char>,
    errors::ErrorView,
> {
    match value {
        None => Err(
            errors::upstream(
                what + ": environment variable "@ + name
                    + " is not set (export it or update the config)"@,
            ),
        ),
        Some(raw) => if text::trimmed(raw@).len() == 0 {
            Err(errors::upstream(what + ": environment variable "@ + name + " is set but empty"@))
        } else {
            Ok(text::trimmed(raw@))
        },
    }
}

/// What a secret in a file comes to.
pub open spec fn file_secret(what: Seq<char>, file: SecretFile) -> Result<Seq<char>, errors::ErrorView> {
    match file.stat {
        Err(words) => Err(
            errors::upstream(what + ": "@ + ("stat secret file "@ + file.path@ + ": "@ + words@)),
        ),
        Ok(entry) => match secret_file_fault(file.path@, entry) {
            Some(fault) => Err(errors::upstream(what + ": "@ + fault)),
            None => match file.content {
                Err(words) => Err(errors::upstream(what + ": read "@ + file.path@ + ": "@ + words@)),
                Ok(raw) => if text::trimmed(raw@).len() == 0 {
                    Err(errors::upstream(what + ": file "@ + file.path@ + " is empty"@))
                } else {
                    Ok(text::trimmed(raw@))
                },
            },
        },
    }
}

/// A secret in the environment.
fn take_env_secret(what: &str, name: &str, value: &Option<String>) -> (secret: Result<String, PipelineError>)
    ensures
        match secret {
            Ok(s) => env_secret(what@, name@, *value) == Ok::<Seq<char>, errors::ErrorView>(s@),
            Err(e) => env_secret(what@, name@, *value) == Err::<Seq<char>, errors::ErrorView>(e@),
        },
{
    match value {
        None => {
            let mut e: String = text::concat3(what, ": environment variable ", name);
            e.append(" is not set (export it or update the config)");
            Err(PipelineError::Upstream(e))
        },
        Some(raw) => {
            let secret: String = text::trim(raw.as_str());
            if secret.as_str().is_empty() {
                let mut e: String = text::concat3(what, ": environment variable ", name);
                e.append(" is set but empty");
                Err(PipelineError::Upstream(e))
            } else {
                Ok(secret)
            }
        },
    }
}

/// A secret in a file.
fn take_file_secret(what: &str, file: &SecretFile) -> (secret: Result<String, PipelineError>)
    ensures
        match secret {
            Ok(s) => file_secret(what@, *file) == Ok::<Seq<char>, errors::ErrorView>(s@),
            Err(e) => file_secret(what@, *file) == Err::<Seq<char>, errors::ErrorView>(e@),
        },
{
    match require_owner_only_secret(file.path.as_str(), &file.stat) {
        Ok(()) => {},
        Err(fault) => {
            return Err(PipelineError::Upstream(text::concat3(what, ": ", fault.as_str())));
        },
    }
    match &file.content {
        Err(words) => {
            let mut e: String = text::concat3(what, ": read ", file.path.as_str());
            e.append(": ");
            e.append(words.as_str());
            Err(PipelineError::Upstream(e))
        },
        Ok(raw) => {
            let secret: String = text::trim(raw.as_str());
            if secret.as_str().is_empty() {
                let mut e: String = text::concat3(what, ": file ", file.path.as_str());
                e.append(" is empty");
                Err(PipelineError::Upstream(e))
            } else {
                Ok(secret)
            }
        },
    }
}

/// What a configured secret comes to: the environment first, then the file;
/// none where neither is configured. A source that is configured and cannot
/// be read is an error.
pub open spec fn secret_of(
    what: Seq<char>,
    env_name: Option<Seq<char>>,
    env_value: Option<String>,
    file: Option<SecretFile>,
) -> Result<Option<Seq<char>>, errors::ErrorView> {
    match env_name {
        Some(name) => match env_secret(what, name, env_value) {
            Ok(s) => Ok(Some(s)),
            Err(e) => Err(e),
        },
        None => match file {
            Some(held) => match file_secret(what, held) {
                Ok(s) => Ok(Some(s)),
                Err(e) => Err(e),
            },
            None => Ok(None),
        },
    }
}

/// The text behind an optional reference.
pub open spec fn opt_view(s: Option<&str>) -> Option<Seq<char>> {
    match s {
        Some(t) => Some(t@),
        None => None,
    }
}

/// Whether `get_env` can give this value for the variable, where one is named.
pub open spec fn can_read<F: Fn(&str) -> Option<String>>(
    get_env: F,
    name: Option<&str>,
    value: Option<String>,
) -> bool {
    name matches Some(n) ==> call_ensures(get_env, (n,), value)
}

/// The outcome of reading a secret by its contents.
pub open spec fn secret_view(secret: Result<Option<String>, PipelineError>) -> Result<
    Option<Seq<char>>,
    errors::ErrorView,
> {
    match secret {
        Ok(s) => Ok(text::opt_text(s)),
        Err(e) => Err(e@),
    }
}

/// Reads a configured secret; `get_env` reads the environment.
pub fn read_secret_from<F: Fn(&str) -> Option<String>>(
    get_env: F,
    env_name: Option<&str>,
    file: &Option<SecretFile>,
    what: &str,
) -> (secret: Result<Option<String>, PipelineError>)
    requires
        env_name matches Some(name) ==> call_requires(get_env, (name,)),
    ensures
        exists|value: Option<String>|
            #[trigger] can_read(get_env, env_name, value) && secret_of(
                what@,
                opt_view(env_name),
                value,
                *file,
            ) == secret_view(secret),
{
    match env_name {
        Some(name) => {
            let value: Option<String> = get_env(name);
            assert(can_read(get_env, env_name, value));
            match take_env_secret(what, name, &value) {
                Ok(s) => Ok(Some(s)),
                Err(e) => Err(e),
            }
        },
        None => {
            assert(can_read(get_env, env_name, None));
            match file {
                Some(held) => match take_file_secret(what, held) {
                    Ok(s) => Ok(Some(s)),
                    Err(e) => Err(e),
                },
                None => Ok(None),
            }
        },
    }
}

/// How the harness authenticates to the provider, in words: where the key is
/// taken from, never the key.
pub open spec fn auth_words(c: HarnessConfig) -> Seq<char> {
    if c.upstream_authorization_passthrough {
        "passthrough(client Authorization)"@
    } else {
        match (c.upstream_api_key_env, c.upstream_api_key_file) {
            (Some(env), _) => "api-key from $"@ + env@ + " in header "@ + headers::debug_text(
                c.upstream_auth_header@,
            ),
            (None, Some(file)) => "api-key from file "@ + file@ + " in header "@ + headers::debug_text(
                c.upstream_auth_header@,
            ),
            (None, None) => "none"@,
        }
    }
}

/// How the harness authenticates to the provider, in words.
pub fn describe_upstream_auth(config: &HarnessConfig) -> (words: String)
    ensures
        words@ == auth_words(*config),
{
    if config.upstream_authorization_passthrough {
        return "passthrough(client Authorization)".to_owned();
    }
    let header: String = headers::quoted(config.upstream_auth_header.as_str());
    match &config.upstream_api_key_env {
        Some(env) => {
            let mut words: String = text::concat3("api-key from $", env.as_str(), " in header ");
            words.append(header.as_str());
            words
        },
        None => match &config.upstream_api_key_file {
            Some(file) => {
                let mut words: String = text::concat3("api-key from file ", file.as_str(), " in header ");
                words.append(header.as_str());
                words
            },
            None => "none".to_owned(),
        },
    }
}

/// The value of the header field that carries a key.
pub open spec fn rendered_key(scheme: Seq<char>, key: Seq<char>) -> Seq<char> {
    if scheme.len() == 0 {
        key
    } else {
        scheme + " "@ + key
    }
}

/// The header field that carries the provider key: its name, in small
/// letters, and its value.
pub open spec fn upstream_auth(header: Seq<char>, scheme: Seq<char>, key: Seq<char>) -> Result<
    (Seq<char>, Seq<char>),
    errors::ErrorView,
> {
    if !headers::is_header_name(header) {
        Err(
            errors::upstream(
                "upstream_auth_header "@ + headers::debug_text(header) + " is not a valid header name"@,
            ),
        )
    } else if !headers::is_header_value(rendered_key(scheme, key)) {
        Err(errors::upstream("upstream API key contains bytes that cannot appear in an HTTP header"@))
    } else {
        Ok((text::lower(header), rendered_key(scheme, key)))
    }
}

/// The header field that carries the provider key; none without a key. Its
/// value is marked as sensitive.
pub fn resolve_upstream_auth(config: &HarnessConfig, key: Option<String>) -> (field: Result<
    Option<(String, axum::http::HeaderValue)>,
    PipelineError,
>)
    ensures
        match key {
            None => field == Ok::<Option<(String, axum::http::HeaderValue)>, PipelineError>(None),
            Some(k) => match upstream_auth(
                config.upstream_auth_header@,
                config.upstream_auth_scheme@,
                k@,
            ) {
                Ok(wanted) => field matches Ok(Some(f)) && f.0@ == wanted.0 && headers::field_bytes(f.1)
                    == vstd::utf8::encode_utf8(wanted.1) && headers::is_sensitive(f.1),
                Err(fault) => field matches Err(e) && e@ == fault,
            },
        },
{
    let key: String = match key {
        Some(key) => key,
        None => {
            return Ok(None);
        },
    };
    if !headers::header_name_is_valid(config.upstream_auth_header.as_str()) {
        return Err(
            PipelineError::Upstream(
                text::concat3(
                    "upstream_auth_header ",
                    headers::quoted(config.upstream_auth_header.as_str()).as_str(),
                    " is not a valid header name",
                ),
            ),
        );
    }
    let rendered: String = if config.upstream_auth_scheme.as_str().is_empty() {
        key
    } else {
        text::concat3(config.upstream_auth_scheme.as_str(), " ", key.as_str())
    };
    match headers::sensitive_value(rendered.as_str()) {
        Some(value) => Ok(Some((text::to_lower(config.upstream_auth_header.as_str()), value))),
        None => Err(
            PipelineError::Upstream(
                "upstream API key contains bytes that cannot appear in an HTTP header".to_owned(),
            ),
        ),
    }
}

/// The credential for the tool server; none without a token. It is marked as
/// sensitive.
pub fn resolve_tool_auth(token: Option<String>) -> (value: Result<Option<axum::http::HeaderValue>, PipelineError>)
    ensures
        match token {
            None => value == Ok::<Option<axum::http::HeaderValue>, PipelineError>(None),
            Some(t) => if headers::is_header_value("Bearer "@ + t@) {
                value matches Ok(Some(v)) && headers::field_bytes(v) == vstd::utf8::encode_utf8("Bearer "@ + t@)
                    && headers::is_sensitive(v)
            } else {
                value matches Err(e) && e@ == errors::upstream(
                    "tool upstream bearer token contains bytes that cannot appear in an HTTP header"@,
                )
            },
        },
{
    match token {
        None => Ok(None),
        Some(token) => {
            let rendered: String = text::concat2("Bearer ", token.as_str());
            match headers::sensitive_value(rendered.as_str()) {
                Some(value) => Ok(Some(value)),
                None => Err(
                    PipelineError::Upstream(
                        "tool upstream bearer token contains bytes that cannot appear in an HTTP header".to_owned(),
                    ),
                ),
            }
        },
    }
}

/// A secret is read from a file only where the group and all others have no
/// right to it: the last two digits of its mode are zero.
pub proof fn law_shared_files_hold_no_secret(path: Seq<char>, stat: FileStat)
    ensures
        stat.is_symlink ==> secret_file_fault(path, stat) is Some && seed_file_fault(path, stat) is Some,
        !stat.is_file ==> secret_file_fault(path, stat) is Some && seed_file_fault(path, stat) is Some,
        !stat.is_symlink && stat.is_file ==> (secret_file_fault(path, stat) is None <==> octal3(permission_bits(stat.mode))[1]
            == '0' && octal3(permission_bits(stat.mode))[2] == '0'),
        secret_file_fault(path, stat) matches Some(words) ==> text::has_prefix(words, "secret file "@ + path),
{
    let bits = permission_bits(stat.mode);
    let shown = octal3(bits);
    assert(shown[1] == octal_digit(bits / 8 % 8) && shown[2] == octal_digit(bits % 8));
    lemma_zero_digit(bits / 8 % 8);
    lemma_zero_digit(bits % 8);
    assert(stat.mode % 64 == 0 <==> bits / 8 % 8 == 0 && bits % 8 == 0) by {
        let m = stat.mode as int;
        assert(bits == m % 512);
        assert(m % 64 == (m % 512) % 64);
        assert((m % 512) % 64 == ((m % 512) / 8 % 8) * 8 + (m % 512) % 8);
    }
    if let Some(words) = secret_file_fault(path, stat) {
        let head = "secret file "@ + path;
        assert(words.take(head.len() as int) =~= head);
    }
}

/// The digit for zero is '0', and that of no other number.
proof fn lemma_zero_digit(d: nat)
    requires
        d < 8,
    ensures
        octal_digit(d) == '0' <==> d == 0,
{
}

/// A secret from the environment is the value of the named variable without
/// white space around it; one that is not set or empty is none.
pub proof fn law_environment_secrets_are_trimmed(what: Seq<char>, name: Seq<char>, value: Option<String>)
    ensures
        env_secret(what, name, value) is Ok <==> (value matches Some(raw) && text::trimmed(raw@).len() > 0),
        env_secret(what, name, value) matches Ok(secret) ==> secret == text::trimmed(value->0@) && secret.len() > 0,
        env_secret(what, name, value) matches Err(e) ==> e.kind == errors::ErrorKind::Upstream,
{
}

/// A secret from a file is its content without white space around it, where
/// the file is private and holds one.
pub proof fn law_file_secrets_are_trimmed(what: Seq<char>, file: SecretFile)
    ensures
        file_secret(what, file) is Ok <==> (file.stat matches Ok(entry) && secret_file_fault(file.path@, entry) is None)
            && (file.content matches Ok(raw) && text::trimmed(raw@).len() > 0),
        file_secret(what, file) matches Ok(secret) ==> secret == text::trimmed(file.content->Ok_0@) && secret.len() > 0,
        file_secret(what, file) matches Err(e) ==> e.kind == errors::ErrorKind::Upstream,
{
}

/// The environment comes before the file, and where neither is configured
/// there is no secret; a source that fails does not fall back to the other.
pub proof fn law_secrets_have_one_source(what: Seq<char>, name: Seq<char>, value: Option<String>, file: Option<SecretFile>)
    ensures
        secret_of(what, None, value, None) == Ok::<Option<Seq<char>>, errors::ErrorView>(None),
        secret_of(what, Some(name), value, file) is Ok <==> env_secret(what, name, value) is Ok,
        secret_of(what, Some(name), value, file) matches Ok(secret) ==> secret is Some && env_secret(what, name, value)
            == Ok::<Seq<char>, errors::ErrorView>(secret->0),
        file is Some ==> (secret_of(what, None, value, file) is Ok <==> file_secret(what, file->0) is Ok),
        file is Some ==> (secret_of(what, None, value, file) matches Ok(secret) ==> secret is Some && file_secret(
            what,
            file->0,
        ) == Ok::<Seq<char>, errors::ErrorView>(secret->0)),
{
}

/// The provider's key goes into the configured header, behind the configured
/// word and a space, or bare where there is no word.
pub proof fn law_keys_are_rendered_with_their_scheme(header: Seq<char>, scheme: Seq<char>, key: Seq<char>)
    ensures
        scheme.len() == 0 ==> rendered_key(scheme, key) == key,
        scheme.len() > 0 ==> rendered_key(scheme, key) == scheme + " "@ + key,
        upstream_auth(header, scheme, key) is Ok <==> headers::is_header_name(header) && headers::is_header_value(
            rendered_key(scheme, key),
        ),
        upstream_auth(header, scheme, key) matches Ok((name, value)) ==> name == text::lower(header) && value
            == rendered_key(scheme, key),
        upstream_auth(header, scheme, key) matches Err(e) ==> e.kind == errors::ErrorKind::Upstream,
{
}

/// A secret that cannot be had is refused for what is wrong with it, and the
/// words name where it was looked for.
pub proof fn law_refused_secrets_are_told_why(
    what: Seq<char>,
    name: Seq<char>,
    value: Option<String>,
    file: SecretFile,
    path: Seq<char>,
    stat: FileStat,
)
    ensures
        value is None ==> env_secret(what, name, value) == Err::<Seq<char>, errors::ErrorView>(
            errors::ErrorView {
                kind: errors::ErrorKind::Upstream,
                detail: what + ": environment variable "@ + name + " is not set (export it or update the config)"@,
            },
        ),
        (value matches Some(raw) && text::trimmed(raw@).len() == 0) ==> env_secret(what, name, value) == Err::<
            Seq<char>,
            errors::ErrorView,
        >(
            errors::ErrorView {
                kind: errors::ErrorKind::Upstream,
                detail: what + ": environment variable "@ + name + " is set but empty"@,
            },
        ),
        (file.stat matches Ok(entry) && secret_file_fault(file.path@, entry) is None) && (file.content matches Ok(raw)
            && text::trimmed(raw@).len() == 0) ==> file_secret(what, file) == Err::<Seq<char>, errors::ErrorView>(
            errors::ErrorView {
                kind: errors::ErrorKind::Upstream,
                detail: what + ": file "@ + file.path@ + " is empty"@,
            },
        ),
        stat.is_symlink ==> secret_file_fault(path, stat) == Some(
            "secret file "@ + path + " is a symbolic link; refusing to follow"@,
        ) && seed_file_fault(path, stat) == Some(
            "secret file "@ + path
                + " is a symbolic link; refusing to follow (remove the link and store the seed inline at this path)"@,
        ),
        !stat.is_symlink && !stat.is_file ==> secret_file_fault(path, stat) == Some(
            "secret file "@ + path + " is not a regular file"@,
        ) && seed_file_fault(path, stat) == Some(
            "secret file "@ + path + " is not a regular file (type: "@ + stat.kind@ + ")"@,
        ),
        !stat.is_symlink && stat.is_file && !owner_only(stat.mode) ==> secret_file_fault(path, stat) == Some(
            "secret file "@ + path + " has mode 0o"@ + octal3(permission_bits(stat.mode))
                + "; must be owner-only (chmod 600 "@ + path + ")"@,
        ) && seed_file_fault(path, stat) == Some(
            "secret file "@ + path + " has mode 0o"@ + octal3(permission_bits(stat.mode)) + "; must be 0o600 (chmod 600 "@
                + path + ")"@,
        ),
{
}

/// How a provider is paid for is told without the key: where it comes from
/// and in which header it goes out.
pub proof fn law_keys_are_told_by_their_source(c: HarnessConfig)
    ensures
        c.upstream_authorization_passthrough ==> auth_words(c) == "passthrough(client Authorization)"@,
        !c.upstream_authorization_passthrough && c.upstream_api_key_env is None && c.upstream_api_key_file is None
            ==> auth_words(c) == "none"@,
        !c.upstream_authorization_passthrough && c.upstream_api_key_env is Some ==> auth_words(c) == "api-key from $"@
            + c.upstream_api_key_env->0@ + " in header "@ + headers::debug_text(c.upstream_auth_header@),
        !c.upstream_authorization_passthrough && c.upstream_api_key_env is None && c.upstream_api_key_file is Some
            ==> auth_words(c) == "api-key from file "@ + c.upstream_api_key_file->0@ + " in header "@ + headers::debug_text(
            c.upstream_auth_header@,
        ),
{
}

/// A key that cannot go out in its header is refused; where the name is at
/// fault, it is the name that is told.
pub proof fn law_unsendable_keys_are_refused(header: Seq<char>, scheme: Seq<char>, key: Seq<char>)
    ensures
        !headers::is_header_name(header) ==> upstream_auth(header, scheme, key) == Err::<
            (Seq<char>, Seq<char>),
            errors::ErrorView,
        >(
            errors::ErrorView {
                kind: errors::ErrorKind::Upstream,
                detail: "upstream_auth_header "@ + headers::debug_text(header) + " is not a valid header name"@,
            },
        ),
        headers::is_header_name(header) && !headers::is_header_value(rendered_key(scheme, key)) ==> upstream_auth(
            header,
            scheme,
            key,
        ) == Err::<(Seq<char>, Seq<char>), errors::ErrorView>(
            errors::ErrorView {
                kind: errors::ErrorKind::Upstream,
                detail: "upstream API key contains bytes that cannot appear in an HTTP header"@,
            },
        ),
{
}

/// A secret file that cannot be looked at or read is told with its path.
pub proof fn law_unreadable_secrets_are_told(what: Seq<char>, file: SecretFile)
    ensures
        file.stat matches Err(words) ==> file_secret(what, file) == Err::<Seq<char>, errors::ErrorView>(
            errors::ErrorView {
                kind: errors::ErrorKind::Upstream,
                detail: what + ": "@ + ("stat secret file "@ + file.path@ + ": "@ + words@),
            },
        ),
        (file.stat matches Ok(entry) && secret_file_fault(file.path@, entry) is None) && file.content is Err ==> (
        file.content matches Err(words) && file_secret(what, file) == Err::<Seq<char>, errors::ErrorView>(
            errors::ErrorView {
                kind: errors::ErrorKind::Upstream,
                detail: what + ": read "@ + file.path@ + ": "@ + words@,
            },
        )),
{
}

} // verus!
