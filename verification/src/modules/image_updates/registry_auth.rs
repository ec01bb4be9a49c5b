//! Credentials for registries that require authentication, and the one header
//! that carries them.
//!
//! The daemon keeps no credentials of its own: a client sends them with every
//! request that needs them, as base64url of a small JSON document. The daemon
//! rejects the standard alphabet's `+` and `/`.

use vstd::prelude::*;
use vstd::string::*;
use vstd::utf8::encode_utf8;
use crate::config::host::Host;
use crate::config::model::RegistryAuth;
use crate::secret::Secret;
use crate::text;

verus! {

/// One registry's credentials, with the password already read from its file.
#[derive(Clone)]
pub struct RegistryCredential {
    /// The registry host as it appears in a normalised image reference.
    pub registry: String,
    pub username: String,
    pub password: Secret,
}

/// What a [`RegistryCredential`] holds.
pub struct Credential {
    pub registry: Seq<char>,
    pub username: Seq<char>,
    pub password: Seq<char>,
}

impl View for RegistryCredential {
    type V = Credential;

    open spec fn view(&self) -> Credential {
        Credential {
            registry: self.registry@,
            username: self.username@,
            password: self.password@,
        }
    }
}

/// The contents of a list of credentials.
pub open spec fn held(list: Seq<RegistryCredential>) -> Seq<Credential> {
    list.map_values(|c: RegistryCredential| c@)
}

/// The credentials of the first `n` entries whose password file can be read.
pub open spec fn resolved(entries: Seq<RegistryAuth>, host: Host, n: int) -> Seq<Credential>
    decreases n,
{
    if n <= 0 {
        Seq::empty()
    } else {
        let rest = resolved(entries, host, n - 1);
        let e = entries[n - 1];
        match host.secret(e.password_file@) {
            Ok(password) => rest.push(
                Credential { registry: e.registry@, username: e.username@, password },
            ),
            Err(_) => rest,
        }
    }
}

/// One message for each of the first `n` entries whose password file cannot be
/// read.
pub open spec fn unresolved(entries: Seq<RegistryAuth>, host: Host, n: int) -> Seq<Seq<char>>
    decreases n,
{
    if n <= 0 {
        Seq::empty()
    } else {
        let rest = unresolved(entries, host, n - 1);
        let e = entries[n - 1];
        match host.secret(e.password_file@) {
            Ok(_) => rest,
            Err(fault) => rest.push(
                "no credential for '"@ + e.registry@ + "' — "@ + e.password_file@ + ": "@
                    + fault.message(),
            ),
        }
    }
}

/// Reads each configured password from the file the configuration names. Returns
/// what could be read, and one message per entry that could not: the registry and
/// the path, never the contents.
pub fn resolve(entries: &Vec<RegistryAuth>, host: &Host) -> (r: (
    Vec<RegistryCredential>,
    Vec<String>,
))
    ensures
        held(r.0@) == resolved(entries@, *host, entries@.len() as int),
        text::texts(r.1@) == unresolved(entries@, *host, entries@.len() as int),
{
    let mut credentials: Vec<RegistryCredential> = Vec::new();
    let mut problems: Vec<String> = Vec::new();
    let mut i: usize = 0;
    proof {
        assert(held(credentials@) =~= Seq::<Credential>::empty());
        assert(text::texts(problems@) =~= Seq::<Seq<char>>::empty());
    }
    while i < entries.len()
        invariant
            i <= entries.len(),
            held(credentials@) == resolved(entries@, *host, i as int),
            text::texts(problems@) == unresolved(entries@, *host, i as int),
        decreases entries.len() - i,
    {
        let entry = &entries[i];
        match host.secret_at(&entry.password_file) {
            Ok(password) => {
                let ghost before = held(credentials@);
                let credential = RegistryCredential {
                    registry: entry.registry.clone(),
                    username: entry.username.clone(),
                    password,
                };
                let ghost v = credential@;
                credentials.push(credential);
                proof {
                    assert(held(credentials@) =~= before.push(v));
                }
            }
            Err(e) => {
                text::note(
                    &mut problems,
                    text::cat6(
                        "no credential for '",
                        &entry.registry,
                        "' — ",
                        &entry.password_file,
                        ": ",
                        &e.message(),
                    ),
                );
            }
        }
        i += 1;
    }
    (credentials, problems)
}

/// The registry host of a normalised reference: its first component.
pub open spec fn host_of(reference: Seq<char>) -> Seq<char> {
    reference.take(text::before_char(reference, '/') as int)
}

/// The registry host of a normalised reference.
pub fn registry_of(reference: &str) -> (r: String)
    ensures
        r@ == host_of(reference@),
{
    let c = text::chars_of(reference);
    let k: usize = text::position_of(&c, '/', 0);
    let r = text::string_between(&c, 0, k);
    proof {
        assert(c@.skip(0) =~= reference@);
        assert(r@ =~= reference@.take(k as int));
    }
    r
}

/// The first credential from `i` on for a registry.
pub open spec fn credential_for(list: Seq<Credential>, registry: Seq<char>, i: int) -> Option<
    Credential,
>
    decreases list.len() - i,
{
    if i < 0 || i >= list.len() {
        None
    } else if list[i].registry == registry {
        Some(list[i])
    } else {
        credential_for(list, registry, i + 1)
    }
}

/// A credential goes only to the registry it is configured for.
pub proof fn law_a_credential_goes_only_to_its_registry(
    list: Seq<Credential>,
    registry: Seq<char>,
    i: int,
)
    ensures
        credential_for(list, registry, i) matches Some(c) ==> c.registry == registry
            && list.contains(c),
    decreases list.len() - i,
{
    if 0 <= i < list.len() && list[i].registry != registry {
        law_a_credential_goes_only_to_its_registry(list, registry, i + 1);
    }
}

/// The header value for a reference: none where no credential is configured for
/// its registry, since an anonymous query succeeds on a public one.
pub fn header_for(credentials: &Vec<RegistryCredential>, reference: &str) -> (r: Option<String>)
    ensures
        text::optional(r) == (match credential_for(held(credentials@), host_of(reference@), 0) {
            Some(c) => Some(auth_header(c)),
            None => None,
        }),
{
    let host = registry_of(reference);
    let ghost all = held(credentials@);
    let mut i: usize = 0;
    while i < credentials.len()
        invariant
            i <= credentials.len(),
            all == held(credentials@),
            host@ == host_of(reference@),
            credential_for(all, host@, 0) == credential_for(all, host@, i as int),
        decreases credentials.len() - i,
    {
        proof {
            assert(all[i as int] == credentials@[i as int]@);
        }
        if text::same(&credentials[i].registry, &host) {
            return Some(encode_auth(&credentials[i]));
        }
        i += 1;
    }
    None
}

// ---------------------------------------------------------------------------
// The encoding
// ---------------------------------------------------------------------------

/// What `serde_json::to_string` makes of a string.
pub uninterp spec fn json_string(s: Seq<char>) -> Seq<char>;

/// `serde_json::to_string` writes a string as a JSON string, quoted and escaped.
/// What it writes depends on the string alone.
#[verifier::external_body]
fn quote_json(s: &str) -> (r: String)
    ensures
        r@ == json_string(s@),
{
    serde_json::to_string(s).unwrap_or_default()
}

/// The JSON document the daemon expects, from its three strings as JSON.
pub open spec fn auth_json(
    username: Seq<char>,
    password: Seq<char>,
    registry: Seq<char>,
) -> Seq<char> {
    "{\"username\":"@ + username + ",\"password\":"@ + password + ",\"serveraddress\":"@ + registry
        + "}"@
}

/// The header value of a credential.
pub open spec fn auth_header(c: Credential) -> Seq<char> {
    encoded(
        encode_utf8(
            auth_json(
                json_string(c.username),
                json_string(c.password),
                json_string(c.registry),
            ),
        ),
    )
}

/// The document the daemon expects, from its three strings as JSON.
pub fn auth_document(username: &str, password: &str, registry: &str) -> (r: String)
    ensures
        r@ == auth_json(username@, password@, registry@),
{
    text::cat7(
        "{\"username\":",
        username,
        ",\"password\":",
        password,
        ",\"serveraddress\":",
        registry,
        "}",
    )
}

/// The header value: base64url of the document the daemon expects.
pub fn encode_auth(cred: &RegistryCredential) -> (r: String)
    ensures
        r@ == auth_header(cred@),
{
    let json = auth_document(
        &quote_json(&cred.username),
        &quote_json(cred.password.expose()),
        &quote_json(&cred.registry),
    );
    base64url(json.as_str().as_bytes())
}

/// The character that stands for six bits.
pub open spec fn symbol(d: int) -> char {
    if d < 26 {
        (65 + d) as u8 as char
    } else if d < 52 {
        (71 + d) as u8 as char
    } else if d < 62 {
        (d - 4) as u8 as char
    } else if d == 62 {
        '-'
    } else {
        '_'
    }
}

fn symbol_of(d: u32) -> (r: char)
    requires
        d < 64,
    ensures
        r == symbol(d as int),
{
    if d < 26 {
        (65 + d as u8) as char
    } else if d < 52 {
        (71 + d as u8) as char
    } else if d < 62 {
        (d as u8 - 4) as char
    } else if d == 62 {
        '-'
    } else {
        '_'
    }
}

/// The byte at `i`, or zero behind the end.
pub open spec fn byte_at(input: Seq<u8>, i: int) -> int {
    if i < input.len() {
        input[i] as int
    } else {
        0
    }
}

/// The four characters for up to three bytes.
pub open spec fn group(input: Seq<u8>) -> Seq<char> {
    let n = byte_at(input, 0) * 65536 + byte_at(input, 1) * 256 + byte_at(input, 2);
    seq![
        symbol(n / 262144),
        symbol(n / 4096 % 64),
        if input.len() > 1 {
            symbol(n / 64 % 64)
        } else {
            '='
        },
        if input.len() > 2 {
            symbol(n % 64)
        } else {
            '='
        },
    ]
}

/// base64url with padding.
pub open spec fn encoded(input: Seq<u8>) -> Seq<char>
    decreases input.len(),
{
    if input.len() == 0 {
        Seq::empty()
    } else if input.len() <= 3 {
        group(input)
    } else {
        group(input.take(3)) + encoded(input.skip(3))
    }
}

/// base64url (RFC 4648 §5) with padding: what the daemon's decoder takes.
pub fn base64url(input: &[u8]) -> (r: String)
    ensures
        r@ == encoded(input@),
{
    let mut out = String::new();
    let mut i: usize = 0;
    proof {
        assert(input@.skip(0) =~= input@);
        assert(out@ + encoded(input@) =~= encoded(input@));
    }
    while i < input.len()
        invariant
            i <= input.len(),
            out@ + encoded(input@.skip(i as int)) == encoded(input@),
        decreases input.len() - i,
    {
        let ghost rest = input@.skip(i as int);
        let ghost before = out@;
        let left: usize = input.len() - i;
        let b0: u32 = input[i] as u32;
        let b1: u32 = if left > 1 {
            input[i + 1] as u32
        } else {
            0
        };
        let b2: u32 = if left > 2 {
            input[i + 2] as u32
        } else {
            0
        };
        let n: u32 = b0 * 65536 + b1 * 256 + b2;
        out.push(symbol_of(n / 262144));
        out.push(symbol_of(n / 4096 % 64));
        out.push(
            if left > 1 {
                symbol_of(n / 64 % 64)
            } else {
                '='
            },
        );
        out.push(
            if left > 2 {
                symbol_of(n % 64)
            } else {
                '='
            },
        );
        proof {
            let chunk = if rest.len() <= 3 {
                rest
            } else {
                rest.take(3)
            };
            assert(out@ =~= before + group(chunk));
            if left > 3 {
                assert(rest.skip(3) =~= input@.skip(i + 3));
                assert(out@ + encoded(input@.skip(i + 3)) =~= before + (group(chunk) + encoded(
                    rest.skip(3),
                )));
            } else {
                assert(out@ + encoded(input@.skip(input@.len() as int)) =~= out@);
            }
        }
        i = if left > 3 {
            i + 3
        } else {
            input.len()
        };
    }
    proof {
        assert(input@.skip(i as int).len() == 0);
        assert(out@ + encoded(input@.skip(i as int)) =~= out@);
    }
    out
}

/// The six bits a character stands for; a padding character counts as none.
pub open spec fn bits(c: char) -> int {
    let n = c as u8 as int;
    if 65 <= n && n <= 90 {
        n - 65
    } else if 97 <= n && n <= 122 {
        n - 71
    } else if 48 <= n && n <= 57 {
        n + 4
    } else if n == 45 {
        62
    } else if n == 95 {
        63
    } else {
        0
    }
}

/// The bytes four characters stand for.
pub open spec fn ungroup(s: Seq<char>) -> Seq<u8> {
    let n = bits(s[0]) * 262144 + bits(s[1]) * 4096 + bits(s[2]) * 64 + bits(s[3]);
    let (a, b, c) = ((n / 65536) as u8, (n / 256 % 256) as u8, (n % 256) as u8);
    if s[2] == '=' {
        seq![a]
    } else if s[3] == '=' {
        seq![a, b]
    } else {
        seq![a, b, c]
    }
}

/// The bytes a base64url text stands for.
pub open spec fn decoded(s: Seq<char>) -> Seq<u8>
    decreases s.len(),
{
    if s.len() < 4 {
        Seq::empty()
    } else {
        ungroup(s.take(4)) + decoded(s.skip(4))
    }
}

proof fn lemma_symbol(d: int)
    requires
        0 <= d < 64,
    ensures
        bits(symbol(d)) == d,
        symbol(d) != '=',
        symbol(d) != '+',
        symbol(d) != '/',
        !text::control(symbol(d)),
{
}

/// A number of 24 bits is made of its four digits in base 64.
proof fn lemma_digits(n: int)
    requires
        0 <= n < 16777216,
    ensures
        0 <= n / 262144 < 64,
        (n / 262144) * 262144 + (n / 4096 % 64) * 4096 + (n / 64 % 64) * 64 + n % 64 == n,
{
    let q1 = n / 64;
    let q2 = q1 / 64;
    let q3 = q2 / 64;
    assert(q2 == n / 4096) by {
        vstd::arithmetic::div_mod::lemma_div_denominator(n, 64, 64);
    }
    assert(q3 == n / 262144) by {
        vstd::arithmetic::div_mod::lemma_div_denominator(n, 4096, 64);
    }
    assert(n == q1 * 64 + n % 64);
    assert(q1 == q2 * 64 + q1 % 64);
    assert(q2 == q3 * 64 + q2 % 64);
}

/// Three bytes can be read back from the number they make.
proof fn lemma_bytes(b0: int, b1: int, b2: int)
    requires
        0 <= b0 < 256,
        0 <= b1 < 256,
        0 <= b2 < 256,
    ensures
        (b0 * 65536 + b1 * 256 + b2) / 65536 == b0,
        (b0 * 65536 + b1 * 256 + b2) / 256 % 256 == b1,
        (b0 * 65536 + b1 * 256 + b2) % 256 == b2,
        0 <= b0 * 65536 + b1 * 256 + b2 < 16777216,
{
    let n = b0 * 65536 + b1 * 256 + b2;
    assert(n == (b0 * 256 + b1) * 256 + b2);
    assert(n / 256 == b0 * 256 + b1);
}

proof fn lemma_group(input: Seq<u8>)
    requires
        0 < input.len() <= 3,
    ensures
        ungroup(group(input)) == input,
        group(input).len() == 4,
        forall|i: int|
            0 <= i < 4 ==> !text::control(#[trigger] group(input)[i]) && group(input)[i] != '+'
                && group(input)[i] != '/',
{
    let (b0, b1, b2) = (byte_at(input, 0), byte_at(input, 1), byte_at(input, 2));
    let n = b0 * 65536 + b1 * 256 + b2;
    lemma_bytes(b0, b1, b2);
    lemma_digits(n);
    let (d0, d1, d2, d3) = (n / 262144, n / 4096 % 64, n / 64 % 64, n % 64);
    lemma_symbol(d0);
    lemma_symbol(d1);
    lemma_symbol(d2);
    lemma_symbol(d3);
    let g = group(input);
    assert(bits('=') == 0);
    if input.len() == 1 {
        assert(n == b0 * 1024 * 64);
        assert(d3 == 0);
        assert(n / 64 == b0 * 1024);
        assert(d2 == 0);
    }
    if input.len() == 2 {
        assert(n == (b0 * 1024 + b1 * 4) * 64);
        assert(d3 == 0);
    }
    assert(g[0] == symbol(d0) && g[1] == symbol(d1));
    let m = bits(g[0]) * 262144 + bits(g[1]) * 4096 + bits(g[2]) * 64 + bits(g[3]);
    assert(m == n);
    assert(ungroup(g) =~= input);
}

/// Decoding gives back what was encoded, and the encoded text holds neither a
/// control character nor a character of the standard alphabet's that the daemon
/// rejects.
pub proof fn law_base64url_round_trips(input: Seq<u8>)
    ensures
        decoded(encoded(input)) == input,
        forall|i: int|
            0 <= i < encoded(input).len() ==> !text::control(#[trigger] encoded(input)[i])
                && encoded(input)[i] != '+' && encoded(input)[i] != '/',
    decreases input.len(),
{
    let e = encoded(input);
    if input.len() == 0 {
        assert(decoded(e) =~= input);
    } else if input.len() <= 3 {
        lemma_group(input);
        assert(e.take(4) =~= e);
        assert(decoded(e.skip(4)) =~= Seq::<u8>::empty());
        assert(decoded(e) =~= input);
    } else {
        let (first, rest) = (input.take(3), input.skip(3));
        lemma_group(first);
        law_base64url_round_trips(rest);
        assert(e.take(4) =~= group(first));
        assert(e.skip(4) =~= encoded(rest));
        assert(decoded(e) =~= first + rest);
        assert(first + rest =~= input);
        assert forall|i: int| 0 <= i < e.len() implies !text::control(#[trigger] e[i]) && e[i]
            != '+' && e[i] != '/' by {
            if i < 4 {
                assert(e[i] == group(first)[i]);
            } else {
                assert(e[i] == encoded(rest)[i - 4]);
            }
        }
    }
}

} // verus!
