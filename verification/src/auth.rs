//! Credentials: password hashes, session token hashes, signed node agent
//! tokens and the checks around logins and users.
use vstd::prelude::*;

use base64::Engine;
use ring::rand::SecureRandom;
use sha2::Digest;
use vstd::string::{StrSliceExecFns, StringSliceAdditionalSpecFns};

use crate::error::{bad_request, bad_result, is_bad_request, is_internal, ServiceError, ServiceResult};
use crate::service::ControlPlaneAuthConfig;
use crate::store::BootstrapAdminConfig;
use crate::text::{is_blank, is_blank_seq, lemma_trim_idempotent, trim, trim_seq};
use crate::number::{lemma_parse_dec, parse_unsigned, spec_parse_unsigned};
use crate::text::{chars_of, dec, push_char, push_str, push_u64, str_eq, string_of, string_of_chars};

verus! {

// ---------------------------------------------------------------- outside crates

/// Inputs of the hash functions stay below 2^60 bytes: *ring* refuses, and
/// its panicking entry points panic on, inputs whose bit length does not fit
/// in 64 bits.
pub open spec fn fits_hash_input(len: nat) -> bool {
    len < 0x1000_0000_0000_0000
}

/// Texts handed to the hash functions stay below 2^57 characters, so that
/// their UTF-8 forms, and two of them joined, stay below 2^60 bytes.
pub open spec fn fits_text(s: Seq<char>) -> bool {
    s.len() < 0x0200_0000_0000_0000
}

/// A character takes at most four bytes in UTF-8.
pub proof fn lemma_utf8_len(s: Seq<char>)
    ensures
        vstd::utf8::encode_utf8(s).len() <= 4 * s.len(),
    decreases s.len(),
{
    if s.len() > 0 {
        lemma_utf8_len(s.drop_first());
    }
}

/// Trimming never lengthens a text.
pub proof fn lemma_trim_len(s: Seq<char>)
    ensures
        trim_seq(s).len() <= s.len(),
{
    lemma_trim_start_len(s);
    lemma_trim_end_len(crate::text::trim_start_seq(s));
}

proof fn lemma_trim_start_len(s: Seq<char>)
    ensures
        crate::text::trim_start_seq(s).len() <= s.len(),
    decreases s.len(),
{
    if s.len() > 0 {
        lemma_trim_start_len(s.drop_first());
    }
}

proof fn lemma_trim_end_len(s: Seq<char>)
    ensures
        crate::text::trim_end_seq(s).len() <= s.len(),
    decreases s.len(),
{
    if s.len() > 0 {
        lemma_trim_end_len(s.drop_last());
    }
}

/// The largest output that PBKDF2 can verify: `u32::MAX` blocks of 32 bytes.
pub open spec fn pbkdf2_max_len() -> nat {
    32 * 0xffff_ffff
}

/// What `ring::pbkdf2::derive` with `PBKDF2_HMAC_SHA256` writes into an
/// output of `len` bytes.
pub uninterp spec fn pbkdf2_hmac_sha256(iterations: u32, salt: Seq<u8>, secret: Seq<u8>, len: nat) -> Seq<u8>;

/// The HMAC-SHA256 tag that `ring::hmac::sign` computes.
pub uninterp spec fn hmac_sha256(key: Seq<u8>, data: Seq<u8>) -> Seq<u8>;

/// The SHA-256 digest that `sha2::Sha256` computes.
pub uninterp spec fn sha256(data: Seq<u8>) -> Seq<u8>;

/// What `URL_SAFE_NO_PAD.encode` of the `base64` crate writes.
pub uninterp spec fn base64_url_encode(bytes: Seq<u8>) -> Seq<char>;

/// What `URL_SAFE_NO_PAD.decode` of the `base64` crate reads from a text,
/// `None` where it returns an error.
pub uninterp spec fn base64_url_decode(text: Seq<char>) -> Option<Seq<u8>>;

/// The characters of the URL-safe base64 alphabet.
pub open spec fn is_url_safe_char(c: char) -> bool {
    ||| 'A' <= c && c <= 'Z'
    ||| 'a' <= c && c <= 'z'
    ||| '0' <= c && c <= '9'
    ||| c == '-'
    ||| c == '_'
}

/// `ring::pbkdf2::derive` with `PBKDF2_HMAC_SHA256`: it fills `len` bytes with
/// the derived key. Claimed: the output is the named derivation of the
/// arguments and has `len` bytes.
#[verifier::external_body]
fn pbkdf2_derive(iterations: u32, salt: &[u8], secret: &[u8], len: usize) -> (out: Vec<u8>)
    requires
        iterations > 0,
        0 < len <= 32,
        fits_hash_input(salt@.len()),
        fits_hash_input(secret@.len()),
    ensures
        out@ == pbkdf2_hmac_sha256(iterations, salt@, secret@, len as nat),
        out@.len() == len,
{
    let mut out = vec![0u8; len];
    ring::pbkdf2::derive(
        ring::pbkdf2::PBKDF2_HMAC_SHA256,
        std::num::NonZeroU32::new(iterations).unwrap(),
        salt,
        secret,
        &mut out,
    );
    out
}

/// `ring::pbkdf2::verify` with `PBKDF2_HMAC_SHA256`. Claimed, as its source
/// shows: it succeeds exactly when the expected bytes are not empty, are not
/// longer than `u32::MAX` blocks, and equal the derivation of their length.
#[verifier::external_body]
fn pbkdf2_verify(iterations: u32, salt: &[u8], secret: &[u8], previously_derived: &[u8]) -> (ok: bool)
    requires
        iterations > 0,
        fits_hash_input(salt@.len()),
        fits_hash_input(secret@.len()),
    ensures
        ok == (0 < previously_derived@.len() <= pbkdf2_max_len() && pbkdf2_hmac_sha256(
            iterations,
            salt@,
            secret@,
            previously_derived@.len(),
        ) == previously_derived@),
{
    ring::pbkdf2::verify(
        ring::pbkdf2::PBKDF2_HMAC_SHA256,
        std::num::NonZeroU32::new(iterations).unwrap(),
        salt,
        secret,
        previously_derived,
    ).is_ok()
}

/// `ring::hmac::sign` under an `HMAC_SHA256` key made by `ring::hmac::Key::new`.
/// Claimed: the tag is the named HMAC of the key bytes and the data, 32 bytes long.
#[verifier::external_body]
fn hmac_sign(key: &[u8], data: &[u8]) -> (tag: Vec<u8>)
    requires
        fits_hash_input(key@.len()),
        fits_hash_input(data@.len()),
    ensures
        tag@ == hmac_sha256(key@, data@),
        tag@.len() == 32,
{
    let key = ring::hmac::Key::new(ring::hmac::HMAC_SHA256, key);
    ring::hmac::sign(&key, data).as_ref().to_vec()
}

/// `ring::hmac::verify` under an `HMAC_SHA256` key made by `ring::hmac::Key::new`.
/// Claimed: it succeeds exactly when the tag equals the HMAC of the data.
#[verifier::external_body]
fn hmac_verify(key: &[u8], data: &[u8], tag: &[u8]) -> (ok: bool)
    requires
        fits_hash_input(key@.len()),
        fits_hash_input(data@.len()),
    ensures
        ok == (hmac_sha256(key@, data@) == tag@),
{
    let key = ring::hmac::Key::new(ring::hmac::HMAC_SHA256, key);
    ring::hmac::verify(&key, data, tag).is_ok()
}

/// `sha2::Sha256::digest`. Claimed: the named digest, 32 bytes long.
#[verifier::external_body]
fn sha256_digest(data: &[u8]) -> (d: Vec<u8>)
    ensures
        d@ == sha256(data@),
        d@.len() == 32,
{
    sha2::Sha256::digest(data).to_vec()
}

/// `URL_SAFE_NO_PAD.encode` of the `base64` crate. Claimed: the named
/// encoding, written in the URL-safe alphabet, which the engine's `decode`
/// reads back to the same bytes.
#[verifier::external_body]
fn base64_encode(bytes: &[u8]) -> (text: String)
    requires
        bytes@.len() <= usize::MAX / 2,
    ensures
        text@ == base64_url_encode(bytes@),
        base64_url_decode(text@) == Some(bytes@),
        forall|i: int| 0 <= i < text@.len() ==> is_url_safe_char(#[trigger] text@[i]),
{
    base64::engine::general_purpose::URL_SAFE_NO_PAD.encode(bytes)
}

/// `URL_SAFE_NO_PAD.decode` of the `base64` crate. Claimed: the named
/// decoding; what it decodes is no longer than the text.
#[verifier::external_body]
fn base64_decode(text: &str) -> (r: Option<Vec<u8>>)
    ensures
        match r {
            Some(b) => base64_url_decode(text@) == Some(b@) && b@.len() <= text@.len(),
            None => base64_url_decode(text@) is None,
        },
{
    base64::engine::general_purpose::URL_SAFE_NO_PAD.decode(text).ok()
}

/// `SecureRandom::fill` of `ring::rand::SystemRandom` on `len` zeroed bytes.
/// Claimed: when it succeeds, the bytes are `len` long; what they hold is
/// left open.
#[verifier::external_body]
fn random_bytes(len: usize) -> (r: Option<Vec<u8>>)
    ensures
        match r {
            Some(b) => b@.len() == len,
            None => true,
        },
{
    let mut bytes = vec![0u8; len];
    match ring::rand::SystemRandom::new().fill(&mut bytes) {
        Ok(()) => Some(bytes),
        Err(_) => None,
    }
}

// ---------------------------------------------------------------- fields of a text

/// The pieces of `s` between the occurrences of `c`, as `str::split` yields them.
pub open spec fn split_char(s: Seq<char>, c: char) -> Seq<Seq<char>>
    decreases s.len(),
{
    if s.len() == 0 {
        seq![Seq::empty()]
    } else {
        let r = split_char(s.drop_last(), c);
        if s.last() == c {
            r.push(Seq::empty())
        } else {
            r.update(r.len() - 1, r.last().push(s.last()))
        }
    }
}

pub proof fn lemma_split_len(s: Seq<char>, c: char)
    ensures
        split_char(s, c).len() >= 1,
        forall|i: int| 0 <= i < split_char(s, c).len() ==> #[trigger] split_char(s, c)[i].len() <= s.len(),
    decreases s.len(),
{
    if s.len() > 0 {
        lemma_split_len(s.drop_last(), c);
    }
}

/// A text without `c` is one piece.
pub proof fn lemma_split_without(t: Seq<char>, c: char)
    requires
        forall|i: int| 0 <= i < t.len() ==> #[trigger] t[i] != c,
    ensures
        split_char(t, c) == seq![t],
    decreases t.len(),
{
    if t.len() > 0 {
        lemma_split_without(t.drop_last(), c);
        assert(t.drop_last().push(t.last()) =~= t);
        assert(seq![t.drop_last()].update(0, t) =~= seq![t]);
    } else {
        assert(t =~= Seq::<char>::empty());
    }
}

/// Appending `c` and a text without `c` appends one piece.
pub proof fn lemma_split_after(s: Seq<char>, t: Seq<char>, c: char)
    requires
        forall|i: int| 0 <= i < t.len() ==> #[trigger] t[i] != c,
    ensures
        split_char(s + seq![c] + t, c) == split_char(s, c).push(t),
    decreases t.len(),
{
    if t.len() == 0 {
        assert(s + seq![c] + t =~= s.push(c));
        assert((s + seq![c] + t).drop_last() =~= s);
        assert(t =~= Seq::<char>::empty());
    } else {
        let u = t.drop_last();
        lemma_split_after(s, u, c);
        assert((s + seq![c] + t).drop_last() =~= s + seq![c] + u);
        assert((s + seq![c] + t).last() == t.last());
        assert(u.push(t.last()) =~= t);
        assert(split_char(s, c).push(u).update(split_char(s, c).len() as int, t) =~= split_char(s, c).push(t));
    }
}

/// The pieces of `s` between the occurrences of `c`.
pub fn split_fields(s: &str, c: char) -> (parts: Vec<String>)
    ensures
        parts@.map_values(|p: String| p@) == split_char(s@, c),
{
    let v = chars_of(s);
    let mut parts: Vec<String> = Vec::new();
    let mut start: usize = 0;
    let mut i: usize = 0;
    assert(v@.take(0) =~= Seq::<char>::empty());
    assert(v@.subrange(0, 0) =~= Seq::<char>::empty());
    assert(parts@.map_values(|p: String| p@).push(v@.subrange(0, 0)) =~= seq![Seq::<char>::empty()]);
    while i < v.len()
        invariant
            v@ == s@,
            start <= i <= v@.len(),
            parts@.map_values(|p: String| p@).push(v@.subrange(start as int, i as int)) == split_char(
                v@.take(i as int),
                c,
            ),
        decreases v@.len() - i,
    {
        let ghost before = parts@.map_values(|p: String| p@);
        assert(v@.take(i + 1).drop_last() =~= v@.take(i as int));
        assert(v@.take(i + 1).last() == v@[i as int]);
        if v[i] == c {
            let piece = string_of_chars(&v, start, i);
            parts.push(piece);
            start = i + 1;
            assert(parts@.map_values(|p: String| p@) =~= before.push(piece@));
            assert(v@.subrange(start as int, (i + 1) as int) =~= Seq::<char>::empty());
        } else {
            assert(v@.subrange(start as int, i as int).push(v@[i as int]) =~= v@.subrange(
                start as int,
                (i + 1) as int,
            ));
            assert(before.push(v@.subrange(start as int, (i + 1) as int)) =~= before.push(
                v@.subrange(start as int, i as int),
            ).update(before.len() as int, v@.subrange(start as int, (i + 1) as int)));
        }
        i = i + 1;
    }
    let last = string_of_chars(&v, start, v.len());
    parts.push(last);
    assert(v@.take(v@.len() as int) =~= v@);
    assert(parts@.map_values(|p: String| p@) =~= split_char(s@, c));
    parts
}

// ---------------------------------------------------------------- passwords

const PASSWORD_ITERATIONS: u32 = 100000;

const PASSWORD_SALT_LEN: usize = 16;

const PASSWORD_HASH_LEN: usize = 32;

/// The stored form of a password: `pbkdf2_sha256$100000$<salt>$<key>`, with
/// the salt and the 32-byte derived key in URL-safe base64.
pub open spec fn spec_password_hash(salt: Seq<u8>, password: Seq<u8>) -> Seq<char> {
    "pbkdf2_sha256"@ + seq!['$'] + dec(100000) + seq!['$'] + base64_url_encode(salt) + seq!['$']
        + base64_url_encode(pbkdf2_hmac_sha256(100000, salt, password, 32))
}

/// What checking a password against a stored hash gives: whether it matches,
/// or why the stored hash cannot be used. Pieces after the fourth are ignored.
pub open spec fn spec_verify_password(hash: Seq<char>, password: Seq<u8>) -> Result<bool, Seq<char>> {
    let parts = split_char(hash, '$');
    if parts.len() < 4 {
        Err("stored password hash is malformed"@)
    } else if parts[0] != "pbkdf2_sha256"@ {
        Err("unsupported password scheme `"@ + parts[0] + "`"@)
    } else {
        match spec_parse_unsigned(parts[1], u32::MAX as nat) {
            None => Err("stored password hash has invalid iteration count"@),
            Some(n) => if n == 0 {
                Err("iteration count should be non-zero"@)
            } else {
                match base64_url_decode(parts[2]) {
                    None => Err("stored password hash has invalid salt encoding"@),
                    Some(salt) => match base64_url_decode(parts[3]) {
                        None => Err("stored password hash has invalid hash encoding"@),
                        Some(expected) => Ok(
                            0 < expected.len() <= pbkdf2_max_len() && pbkdf2_hmac_sha256(
                                n as u32,
                                salt,
                                password,
                                expected.len(),
                            ) == expected,
                        ),
                    },
                }
            },
        }
    }
}

/// Checks a password against its stored hash.
pub fn verify_password_hash(password_hash: &str, password: &str) -> (r: Result<bool, String>)
    requires
        fits_hash_input(password_hash@.len()),
        fits_text(password@),
    ensures
        match r {
            Ok(b) => spec_verify_password(password_hash@, password.spec_bytes()) == Ok::<bool, Seq<char>>(b),
            Err(m) => spec_verify_password(password_hash@, password.spec_bytes()) == Err::<bool, Seq<char>>(m@),
        },
{
    let parts = split_fields(password_hash, '$');
    proof {
        lemma_split_len(password_hash@, '$');
        assert(parts@.len() == split_char(password_hash@, '$').len());
    }
    if parts.len() < 4 {
        return Err(string_of("stored password hash is malformed"));
    }
    let ghost pieces = split_char(password_hash@, '$');
    assert(parts@[0]@ == pieces[0]);
    assert(parts@[1]@ == pieces[1]);
    assert(parts@[2]@ == pieces[2]);
    assert(parts@[3]@ == pieces[3]);
    if !str_eq(parts[0].as_str(), "pbkdf2_sha256") {
        let mut m = string_of("unsupported password scheme `");
        push_str(&mut m, parts[0].as_str());
        push_char(&mut m, '`');
        proof {
            reveal_strlit("`");
        }
        assert(m@ =~= "unsupported password scheme `"@ + pieces[0] + "`"@);
        return Err(m);
    }
    let iterations = match parse_unsigned(parts[1].as_str(), 0xffff_ffff) {
        Some(n) => n,
        None => {
            return Err(string_of("stored password hash has invalid iteration count"));
        },
    };
    if iterations == 0 {
        return Err(string_of("iteration count should be non-zero"));
    }
    let salt = match base64_decode(parts[2].as_str()) {
        Some(b) => b,
        None => {
            return Err(string_of("stored password hash has invalid salt encoding"));
        },
    };
    let expected = match base64_decode(parts[3].as_str()) {
        Some(b) => b,
        None => {
            return Err(string_of("stored password hash has invalid hash encoding"));
        },
    };
    assert(salt@.len() <= password_hash@.len());
    proof {
        lemma_utf8_len(password@);
    }
    let ok = pbkdf2_verify(iterations as u32, salt.as_slice(), password.as_bytes(), expected.as_slice());
    Ok(ok)
}

/// The stored form of a password under the given 16-byte salt. Checking the
/// same password against it succeeds, and checking any password against it
/// succeeds exactly when both derive the same key.
pub fn hash_password_with_salt(salt: &[u8], password: &str) -> (h: String)
    requires
        salt@.len() == 16,
        fits_text(password@),
    ensures
        h@ == spec_password_hash(salt@, password.spec_bytes()),
        spec_verify_password(h@, password.spec_bytes()) == Ok::<bool, Seq<char>>(true),
        forall|other: Seq<u8>|
            #[trigger] spec_verify_password(h@, other) == Ok::<bool, Seq<char>>(
                pbkdf2_hmac_sha256(100000, salt@, other, 32) == pbkdf2_hmac_sha256(
                    100000,
                    salt@,
                    password.spec_bytes(),
                    32,
                ),
            ),
{
    proof {
        lemma_utf8_len(password@);
    }
    let derived = pbkdf2_derive(PASSWORD_ITERATIONS, salt, password.as_bytes(), PASSWORD_HASH_LEN);
    let encoded_salt = base64_encode(salt);
    let encoded_key = base64_encode(derived.as_slice());
    let mut h = string_of("pbkdf2_sha256");
    push_char(&mut h, '$');
    push_u64(&mut h, PASSWORD_ITERATIONS as u64);
    push_char(&mut h, '$');
    push_str(&mut h, encoded_salt.as_str());
    push_char(&mut h, '$');
    push_str(&mut h, encoded_key.as_str());
    proof {
        let a = "pbkdf2_sha256"@;
        let b = dec(100000);
        let c = encoded_salt@;
        let d = encoded_key@;
        reveal_strlit("pbkdf2_sha256");
        crate::number::lemma_dec_digits(100000);
        assert forall|i: int| 0 <= i < a.len() implies #[trigger] a[i] != '$' by {}
        assert forall|i: int| 0 <= i < b.len() implies #[trigger] b[i] != '$' by {
            assert(crate::number::is_digit(b[i]));
        }
        assert forall|i: int| 0 <= i < c.len() implies #[trigger] c[i] != '$' by {
            assert(is_url_safe_char(c[i]));
        }
        assert forall|i: int| 0 <= i < d.len() implies #[trigger] d[i] != '$' by {
            assert(is_url_safe_char(d[i]));
        }
        lemma_split_without(a, '$');
        lemma_split_after(a, b, '$');
        lemma_split_after(a + seq!['$'] + b, c, '$');
        lemma_split_after(a + seq!['$'] + b + seq!['$'] + c, d, '$');
        assert(h@ =~= a + seq!['$'] + b + seq!['$'] + c + seq!['$'] + d);
        assert(split_char(h@, '$') =~= seq![a, b, c, d]);
        lemma_parse_dec(100000, u32::MAX as nat);
        assert(h@ == spec_password_hash(salt@, password.spec_bytes()));
    }
    h
}

/// The stored form of a password under a fresh random salt. When it is made,
/// checking the same password against it succeeds.
pub fn hash_password(password: &str) -> (r: Result<String, String>)
    requires
        fits_text(password@),
    ensures
        match r {
            Ok(h) => exists|salt: Seq<u8>|
                salt.len() == 16 && h@ == #[trigger] spec_password_hash(salt, password.spec_bytes()),
            Err(m) => m@ == "failed to generate password salt"@,
        },
        r is Ok ==> spec_verify_password(r->Ok_0@, password.spec_bytes()) == Ok::<bool, Seq<char>>(true),
{
    match random_bytes(PASSWORD_SALT_LEN) {
        Some(salt) => {
            let h = hash_password_with_salt(salt.as_slice(), password);
            assert(h@ == spec_password_hash(salt@, password.spec_bytes()));
            Ok(h)
        },
        None => Err(string_of("failed to generate password salt")),
    }
}

// ---------------------------------------------------------------- service side

/// `Internal` with the message that a missing authentication setup gives.
pub open spec fn not_configured(e: ServiceError) -> bool {
    is_internal(e, "auth service is not configured"@)
}

fn not_configured_error() -> (e: ServiceError)
    ensures
        not_configured(e),
{
    ServiceError::Internal(string_of("auth service is not configured"))
}

/// The session secret's bytes, when authentication is set up.
pub open spec fn secret_bytes(config: Option<ControlPlaneAuthConfig>) -> Option<Seq<u8>> {
    match config {
        Some(c) => Some(vstd::utf8::encode_utf8(c.session_secret@)),
        None => None,
    }
}

/// The secret fits what the hash functions take.
pub open spec fn config_fits(config: Option<ControlPlaneAuthConfig>) -> bool {
    match config {
        Some(c) => fits_text(c.session_secret@),
        None => true,
    }
}

/// Checks a password against a stored hash; a stored hash that cannot be used
/// is an internal error.
pub fn verify_password(password_hash: &str, password: &str) -> (r: ServiceResult<bool>)
    requires
        fits_hash_input(password_hash@.len()),
        fits_text(password@),
    ensures
        match spec_verify_password(password_hash@, password.spec_bytes()) {
            Ok(b) => r == Ok::<bool, ServiceError>(b),
            Err(m) => r matches Err(e) && is_internal(e, m),
        },
{
    match verify_password_hash(password_hash, password) {
        Ok(b) => Ok(b),
        Err(m) => Err(ServiceError::Internal(m)),
    }
}

/// The stored form of a new user's password; failing to draw a salt is an internal error.
pub fn hash_new_password(password: &str) -> (r: ServiceResult<String>)
    requires
        fits_text(password@),
    ensures
        match r {
            Ok(h) => (exists|salt: Seq<u8>|
                salt.len() == 16 && h@ == #[trigger] spec_password_hash(salt, password.spec_bytes()))
                && spec_verify_password(h@, password.spec_bytes()) == Ok::<bool, Seq<char>>(true),
            Err(e) => is_internal(e, "failed to generate password salt"@),
        },
{
    match hash_password(password) {
        Ok(h) => Ok(h),
        Err(m) => Err(ServiceError::Internal(m)),
    }
}

/// The bytes that a session token is hashed from: the secret, `:`, the token.
pub open spec fn session_hash_input(secret: Seq<u8>, token: Seq<u8>) -> Seq<u8> {
    secret + seq![0x3au8] + token
}

fn append_bytes(out: &mut Vec<u8>, bytes: &[u8])
    ensures
        final(out)@ == old(out)@ + bytes@,
{
    let mut i: usize = 0;
    while i < bytes.len()
        invariant
            i <= bytes@.len(),
            out@ == old(out)@ + bytes@.take(i as int),
        decreases bytes@.len() - i,
    {
        out.push(bytes[i]);
        i = i + 1;
        assert(out@ =~= old(out)@ + bytes@.take(i as int));
    }
    assert(bytes@.take(bytes@.len() as int) =~= bytes@);
}

/// What the store keeps of a session token: the SHA-256 digest of the
/// secret, `:` and the token, in URL-safe base64.
pub fn hash_session_token(config: &Option<ControlPlaneAuthConfig>, token: &str) -> (r: ServiceResult<String>)
    requires
        config_fits(*config),
        fits_text(token@),
    ensures
        match secret_bytes(*config) {
            None => r matches Err(e) && not_configured(e),
            Some(secret) => r matches Ok(h) && h@ == base64_url_encode(
                sha256(session_hash_input(secret, token.spec_bytes())),
            ),
        },
{
    let c = match config {
        Some(c) => c,
        None => {
            return Err(not_configured_error());
        },
    };
    let mut input: Vec<u8> = Vec::new();
    append_bytes(&mut input, c.session_secret.as_str().as_bytes());
    input.push(0x3a);
    append_bytes(&mut input, token.as_bytes());
    assert(input@ =~= session_hash_input(vstd::utf8::encode_utf8(c.session_secret@), token.spec_bytes()));
    let digest = sha256_digest(input.as_slice());
    Ok(base64_encode(digest.as_slice()))
}

/// Before a session is looked up: a blank token is refused, and the trimmed
/// token is hashed.
pub fn session_lookup_hash(config: &Option<ControlPlaneAuthConfig>, token: &str) -> (r: ServiceResult<String>)
    requires
        config_fits(*config),
        fits_text(token@),
    ensures
        is_blank_seq(token@) ==> r matches Err(ServiceError::Unauthorized),
        !is_blank_seq(token@) ==> match secret_bytes(*config) {
            None => r matches Err(e) && not_configured(e),
            Some(secret) => r matches Ok(h) && h@ == base64_url_encode(
                sha256(session_hash_input(secret, vstd::utf8::encode_utf8(trim_seq(token@)))),
            ),
        },
{
    if is_blank(token) {
        return Err(ServiceError::Unauthorized);
    }
    let trimmed = trim(token);
    proof {
        lemma_trim_len(token@);
    }
    hash_session_token(config, trimmed.as_str())
}

// ---------------------------------------------------------------- signed tokens

/// Index of the first `c` in `s`.
pub open spec fn first_index(s: Seq<char>, c: char) -> Option<int>
    decreases s.len(),
{
    if s.len() == 0 {
        None
    } else if s[0] == c {
        Some(0)
    } else {
        match first_index(s.drop_first(), c) {
            Some(i) => Some(i + 1),
            None => None,
        }
    }
}

proof fn lemma_first_index(s: Seq<char>, c: char, i: int)
    requires
        0 <= i <= s.len(),
        forall|j: int| 0 <= j < i ==> #[trigger] s[j] != c,
        i < s.len() ==> s[i] == c,
    ensures
        first_index(s, c) == (if i < s.len() {
            Some(i)
        } else {
            None::<int>
        }),
    decreases i,
{
    if i > 0 {
        assert forall|j: int| 0 <= j < i - 1 implies #[trigger] s.drop_first()[j] != c by {
            assert(s.drop_first()[j] == s[j + 1]);
        }
        if i < s.len() {
            assert(s.drop_first()[i - 1] == s[i]);
        }
        lemma_first_index(s.drop_first(), c, i - 1);
    }
}

/// What a token's signature covers: the scope, `:`, the payload.
pub open spec fn signing_input(scope: Seq<u8>, payload: Seq<u8>) -> Seq<u8> {
    scope + seq![0x3au8] + payload
}

/// A signed token: the payload and its HMAC under the secret, each in
/// URL-safe base64, joined by `.`.
pub open spec fn spec_signed_token(secret: Seq<u8>, scope: Seq<u8>, payload: Seq<u8>) -> Seq<char> {
    base64_url_encode(payload) + seq!['.'] + base64_url_encode(hmac_sha256(secret, signing_input(scope, payload)))
}

/// The payload and signature of a token, when it has a `.` and both sides decode.
pub open spec fn token_parts(token: Seq<char>) -> Option<(Seq<u8>, Seq<u8>)> {
    match first_index(token, '.') {
        None => None,
        Some(i) => match base64_url_decode(token.take(i)) {
            None => None,
            Some(p) => match base64_url_decode(token.skip(i + 1)) {
                None => None,
                Some(sig) => Some((p, sig)),
            },
        },
    }
}

/// Why a token is refused.
#[derive(Clone, Copy, Debug, PartialEq, Eq, Structural)]
pub enum TokenRefusal {
    Unauthorized,
    NotConfigured,
}

/// What checking a token gives: its payload, or why it is refused.
pub open spec fn spec_verify_token(secret: Option<Seq<u8>>, scope: Seq<u8>, token: Seq<char>) -> Result<
    Seq<u8>,
    TokenRefusal,
> {
    match token_parts(token) {
        None => Err(TokenRefusal::Unauthorized),
        Some(parts) => match secret {
            None => Err(TokenRefusal::NotConfigured),
            Some(key) => if hmac_sha256(key, signing_input(scope, parts.0)) == parts.1 {
                Ok(parts.0)
            } else {
                Err(TokenRefusal::Unauthorized)
            },
        },
    }
}

fn bytes_of(s: &str) -> (v: Vec<u8>)
    ensures
        v@ == s.spec_bytes(),
{
    let mut v: Vec<u8> = Vec::new();
    append_bytes(&mut v, s.as_bytes());
    assert(v@ =~= s.spec_bytes());
    v
}

/// Signs a payload for the given scope with the session secret. The token
/// checks back to the same payload under the same secret and scope.
pub fn sign_payload(config: &Option<ControlPlaneAuthConfig>, scope: &str, payload: &[u8]) -> (r: ServiceResult<String>)
    requires
        config_fits(*config),
        fits_text(scope@),
        payload@.len() < 0x0200_0000_0000_0000,
        payload@.len() <= usize::MAX / 2,
    ensures
        match secret_bytes(*config) {
            None => r matches Err(e) && not_configured(e),
            Some(secret) => r matches Ok(t) && t@ == spec_signed_token(secret, scope.spec_bytes(), payload@)
                && spec_verify_token(Some(secret), scope.spec_bytes(), t@) == Ok::<Seq<u8>, TokenRefusal>(payload@),
        },
{
    let c = match config {
        Some(c) => c,
        None => {
            return Err(not_configured_error());
        },
    };
    proof {
        lemma_utf8_len(scope@);
        lemma_utf8_len(c.session_secret@);
    }
    let mut input = bytes_of(scope);
    input.push(0x3a);
    append_bytes(&mut input, payload);
    assert(input@ =~= signing_input(scope.spec_bytes(), payload@));
    let key = bytes_of(c.session_secret.as_str());
    let tag = hmac_sign(key.as_slice(), input.as_slice());
    let encoded_payload = base64_encode(payload);
    let encoded_tag = base64_encode(tag.as_slice());
    let mut t = string_of(encoded_payload.as_str());
    push_char(&mut t, '.');
    push_str(&mut t, encoded_tag.as_str());
    proof {
        let a = encoded_payload@;
        let b = encoded_tag@;
        assert(t@ =~= a + seq!['.'] + b);
        assert forall|j: int| 0 <= j < a.len() implies #[trigger] t@[j] != '.' by {
            assert(t@[j] == a[j]);
            assert(is_url_safe_char(a[j]));
        }
        lemma_first_index(t@, '.', a.len() as int);
        assert(t@.take(a.len() as int) =~= a);
        assert(t@.skip(a.len() as int + 1) =~= b);
    }
    Ok(t)
}

/// Checks a token signed for the given scope and gives back its payload.
pub fn verify_signed_payload(config: &Option<ControlPlaneAuthConfig>, scope: &str, token: &str) -> (r: ServiceResult<Vec<u8>>)
    requires
        config_fits(*config),
        fits_text(scope@),
        fits_text(token@),
    ensures
        match spec_verify_token(secret_bytes(*config), scope.spec_bytes(), token@) {
            Ok(p) => r matches Ok(v) && v@ == p,
            Err(TokenRefusal::Unauthorized) => r matches Err(ServiceError::Unauthorized),
            Err(TokenRefusal::NotConfigured) => r matches Err(e) && not_configured(e),
        },
{
    let v = chars_of(token);
    let mut i: usize = 0;
    while i < v.len() && v[i] != '.'
        invariant
            v@ == token@,
            i <= v@.len(),
            forall|j: int| 0 <= j < i ==> #[trigger] v@[j] != '.',
        decreases v@.len() - i,
    {
        i = i + 1;
    }
    proof {
        lemma_first_index(token@, '.', i as int);
    }
    if i == v.len() {
        return Err(ServiceError::Unauthorized);
    }
    let encoded_payload = string_of_chars(&v, 0, i);
    let encoded_signature = string_of_chars(&v, i + 1, v.len());
    assert(encoded_payload@ =~= token@.take(i as int));
    assert(encoded_signature@ =~= token@.skip(i + 1));
    let payload = match base64_decode(encoded_payload.as_str()) {
        Some(p) => p,
        None => {
            return Err(ServiceError::Unauthorized);
        },
    };
    let signature = match base64_decode(encoded_signature.as_str()) {
        Some(p) => p,
        None => {
            return Err(ServiceError::Unauthorized);
        },
    };
    let c = match config {
        Some(c) => c,
        None => {
            return Err(not_configured_error());
        },
    };
    proof {
        lemma_utf8_len(scope@);
        lemma_utf8_len(c.session_secret@);
    }
    let mut input = bytes_of(scope);
    input.push(0x3a);
    append_bytes(&mut input, payload.as_slice());
    assert(input@ =~= signing_input(scope.spec_bytes(), payload@));
    let key = bytes_of(c.session_secret.as_str());
    if !hmac_verify(key.as_slice(), input.as_slice(), signature.as_slice()) {
        return Err(ServiceError::Unauthorized);
    }
    Ok(payload)
}

// ---------------------------------------------------------------- node agent tokens

/// What a node agent token carries.
#[derive(Clone, Debug)]
pub struct NodeAgentTokenClaims {
    pub node_id: String,
    pub cluster_id: String,
    pub expires_at_unix_ms: u64,
}

/// A node agent whose token checked out.
#[derive(Clone, Debug)]
pub struct AuthenticatedNodeAgent {
    pub node_id: String,
    pub cluster_id: String,
    pub expires_at_unix_ms: u64,
}

/// A freshly signed node agent token.
#[derive(Clone, Debug)]
pub struct IssuedNodeAgentToken {
    pub token: String,
    pub expires_at_unix_ms: u64,
}

/// The claims of a new node agent token: the trimmed names, and the expiry in
/// milliseconds, or the largest value when the expiry lies before the epoch.
pub fn node_agent_claims(node_id: &str, cluster_id: &str, expires_at_millis: i64) -> (r: ServiceResult<
    NodeAgentTokenClaims,
>)
    ensures
        match r {
            Ok(c) => !(is_blank_seq(node_id@) || is_blank_seq(cluster_id@)) && c.node_id@ == trim_seq(node_id@)
                && c.cluster_id@ == trim_seq(cluster_id@) && c.expires_at_unix_ms == (if expires_at_millis < 0 {
                u64::MAX as int
            } else {
                expires_at_millis as int
            }),
            Err(e) => (is_blank_seq(node_id@) || is_blank_seq(cluster_id@)) && is_bad_request(
                e,
                "node_id and cluster_id should not be empty"@,
            ),
        },
{
    if is_blank(node_id) || is_blank(cluster_id) {
        return Err(bad_request("node_id and cluster_id should not be empty"));
    }
    let expires_at_unix_ms: u64 = if expires_at_millis < 0 {
        u64::MAX
    } else {
        expires_at_millis as u64
    };
    Ok(NodeAgentTokenClaims { node_id: trim(node_id), cluster_id: trim(cluster_id), expires_at_unix_ms })
}

/// Signs a node agent token over the serialized claims.
pub fn issue_node_agent_token(
    config: &Option<ControlPlaneAuthConfig>,
    claims_payload: &[u8],
    expires_at_unix_ms: u64,
) -> (r: ServiceResult<IssuedNodeAgentToken>)
    requires
        config_fits(*config),
        claims_payload@.len() < 0x0200_0000_0000_0000,
        claims_payload@.len() <= usize::MAX / 2,
    ensures
        match secret_bytes(*config) {
            None => r matches Err(e) && not_configured(e),
            Some(secret) => r matches Ok(t) && t.expires_at_unix_ms == expires_at_unix_ms && t.token@
                == spec_signed_token(secret, "node_agent_v1".spec_bytes(), claims_payload@)
                && spec_verify_token(Some(secret), "node_agent_v1".spec_bytes(), t.token@) == Ok::<
                Seq<u8>,
                TokenRefusal,
            >(claims_payload@),
        },
{
    proof {
        reveal_strlit("node_agent_v1");
    }
    match sign_payload(config, "node_agent_v1", claims_payload) {
        Ok(token) => Ok(IssuedNodeAgentToken { token, expires_at_unix_ms }),
        Err(e) => Err(e),
    }
}

/// Checks a node agent token and gives back the claims' serialized form.
pub fn verify_node_agent_token(config: &Option<ControlPlaneAuthConfig>, token: &str) -> (r: ServiceResult<Vec<u8>>)
    requires
        config_fits(*config),
        fits_text(token@),
    ensures
        match spec_verify_token(secret_bytes(*config), "node_agent_v1".spec_bytes(), token@) {
            Ok(p) => r matches Ok(v) && v@ == p,
            Err(TokenRefusal::Unauthorized) => r matches Err(ServiceError::Unauthorized),
            Err(TokenRefusal::NotConfigured) => r matches Err(e) && not_configured(e),
        },
{
    proof {
        reveal_strlit("node_agent_v1");
    }
    verify_signed_payload(config, "node_agent_v1", token)
}

/// Claims minted for a named node and cluster are let in until they expire:
/// the trimmed names are still not blank.
pub proof fn lemma_minted_claims_accepted(node_id: Seq<char>, cluster_id: Seq<char>, expires_at_unix_ms: u64, now_unix_ms: u64)
    requires
        !is_blank_seq(node_id),
        !is_blank_seq(cluster_id),
        now_unix_ms < expires_at_unix_ms,
    ensures
        !is_blank_seq(trim_seq(node_id)) && !is_blank_seq(trim_seq(cluster_id)) && expires_at_unix_ms > now_unix_ms,
{
    lemma_trim_idempotent(node_id);
    lemma_trim_idempotent(cluster_id);
}

/// A node agent is let in while its claims name a node and a cluster and have not expired.
pub fn check_node_agent_claims(claims: NodeAgentTokenClaims, now_unix_ms: u64) -> (r: ServiceResult<
    AuthenticatedNodeAgent,
>)
    ensures
        r is Ok <==> (!is_blank_seq(claims.node_id@) && !is_blank_seq(claims.cluster_id@)
            && claims.expires_at_unix_ms > now_unix_ms),
        r is Err ==> r matches Err(ServiceError::Unauthorized),
        r matches Ok(a) ==> a.node_id == claims.node_id && a.cluster_id == claims.cluster_id
            && a.expires_at_unix_ms == claims.expires_at_unix_ms,
{
    if is_blank(claims.node_id.as_str()) || is_blank(claims.cluster_id.as_str()) {
        return Err(ServiceError::Unauthorized);
    }
    if claims.expires_at_unix_ms <= now_unix_ms {
        return Err(ServiceError::Unauthorized);
    }
    Ok(
        AuthenticatedNodeAgent {
            node_id: claims.node_id,
            cluster_id: claims.cluster_id,
            expires_at_unix_ms: claims.expires_at_unix_ms,
        },
    )
}

// ---------------------------------------------------------------- random tokens

/// A random token of `len` bytes in URL-safe base64.
pub fn generate_random_token(len: usize) -> (r: ServiceResult<String>)
    requires
        len <= usize::MAX / 2,
    ensures
        match r {
            Ok(t) => exists|b: Seq<u8>| b.len() == len && t@ == #[trigger] base64_url_encode(b),
            Err(e) => is_internal(e, "failed to generate secure random token"@),
        },
{
    match random_bytes(len) {
        Some(b) => {
            let t = base64_encode(b.as_slice());
            assert(t@ == base64_url_encode(b@));
            Ok(t)
        },
        None => Err(ServiceError::Internal(string_of("failed to generate secure random token"))),
    }
}

/// A new identifier: the prefix, `_`, and a random 12-byte token.
pub fn generate_id(prefix: &str) -> (r: ServiceResult<String>)
    ensures
        match r {
            Ok(id) => exists|b: Seq<u8>|
                b.len() == 12 && id@ == prefix@ + seq!['_'] + #[trigger] base64_url_encode(b),
            Err(e) => is_internal(e, "failed to generate secure random token"@),
        },
{
    match generate_random_token(12) {
        Ok(t) => {
            let mut id = string_of(prefix);
            push_char(&mut id, '_');
            push_str(&mut id, t.as_str());
            proof {
                let b = choose|b: Seq<u8>| b.len() == 12 && t@ == #[trigger] base64_url_encode(b);
                assert(id@ =~= prefix@ + seq!['_'] + base64_url_encode(b));
            }
            Ok(id)
        },
        Err(e) => Err(e),
    }
}

// ---------------------------------------------------------------- logins and users

/// A login asks for a user name that is not blank and a password that is not empty.
pub fn validate_login_request(username: &str, password: &str) -> (r: ServiceResult<()>)
    ensures
        r is Err <==> (is_blank_seq(username@) || password@.len() == 0),
        r is Err ==> bad_result(r, "username and password should not be empty"@),
{
    if is_blank(username) || password.unicode_len() == 0 {
        return Err(bad_request("username and password should not be empty"));
    }
    Ok(())
}

/// What the store holds of a user's credentials.
#[derive(Clone, Debug)]
pub struct StoredCredentials {
    pub active: bool,
    pub password_hash: String,
}

/// How a login attempt ends.
#[derive(Clone, Copy, Debug, PartialEq, Eq, Structural)]
pub enum LoginCheck {
    UnknownOrInactive,
    PasswordMismatch,
    Accepted,
}

impl LoginCheck {
    /// The reason that the audit log records for a refused login.
    pub fn failure_reason(&self) -> (r: Option<&'static str>)
        ensures
            match *self {
                LoginCheck::UnknownOrInactive => r matches Some(m) && m@ == "unknown user or inactive account"@,
                LoginCheck::PasswordMismatch => r matches Some(m) && m@ == "password mismatch"@,
                LoginCheck::Accepted => r is None,
            },
    {
        match self {
            LoginCheck::UnknownOrInactive => Some("unknown user or inactive account"),
            LoginCheck::PasswordMismatch => Some("password mismatch"),
            LoginCheck::Accepted => None,
        }
    }
}

/// Decides a login from what the store found for the user name: an unknown or
/// inactive user and a wrong password are refused, a stored hash that cannot
/// be used is an internal error.
pub fn check_login(stored: &Option<StoredCredentials>, password: &str) -> (r: ServiceResult<LoginCheck>)
    requires
        stored matches Some(c) ==> fits_hash_input(c.password_hash@.len()),
        fits_text(password@),
    ensures
        match *stored {
            None => r == Ok::<LoginCheck, ServiceError>(LoginCheck::UnknownOrInactive),
            Some(c) => if !c.active {
                r == Ok::<LoginCheck, ServiceError>(LoginCheck::UnknownOrInactive)
            } else {
                match spec_verify_password(c.password_hash@, password.spec_bytes()) {
                    Ok(true) => r == Ok::<LoginCheck, ServiceError>(LoginCheck::Accepted),
                    Ok(false) => r == Ok::<LoginCheck, ServiceError>(LoginCheck::PasswordMismatch),
                    Err(m) => r matches Err(e) && is_internal(e, m),
                }
            },
        },
{
    let c = match stored {
        Some(c) => c,
        None => {
            return Ok(LoginCheck::UnknownOrInactive);
        },
    };
    if !c.active {
        return Ok(LoginCheck::UnknownOrInactive);
    }
    match verify_password(c.password_hash.as_str(), password) {
        Ok(true) => Ok(LoginCheck::Accepted),
        Ok(false) => Ok(LoginCheck::PasswordMismatch),
        Err(e) => Err(e),
    }
}

/// The first refused field of a new user, if any.
pub open spec fn new_user_error(username: Seq<char>, display_name: Seq<char>, password: &str) -> Option<Seq<char>> {
    if is_blank_seq(username) {
        Some("username should not be empty"@)
    } else if is_blank_seq(display_name) {
        Some("display_name should not be empty"@)
    } else if password.spec_bytes().len() < 10 {
        Some("password should be at least 10 characters"@)
    } else {
        None
    }
}

/// A new user needs a user name and a display name that are not blank, and a
/// password of at least 10 bytes.
pub fn validate_new_user(username: &str, display_name: &str, password: &str) -> (r: ServiceResult<()>)
    ensures
        match new_user_error(username@, display_name@, password) {
            None => r is Ok,
            Some(m) => bad_result(r, m),
        },
{
    if is_blank(username) {
        return Err(bad_request("username should not be empty"));
    }
    if is_blank(display_name) {
        return Err(bad_request("display_name should not be empty"));
    }
    if password.as_bytes().len() < 10 {
        return Err(bad_request("password should be at least 10 characters"));
    }
    Ok(())
}

/// The conflict reported when the trimmed user name is taken.
pub fn user_exists_error(username: &str) -> (e: ServiceError)
    ensures
        e matches ServiceError::Conflict(m) && m@ == "user `"@ + trim_seq(username@) + "` already exists"@,
{
    let mut m = string_of("user `");
    let t = trim(username);
    push_str(&mut m, t.as_str());
    push_str(&mut m, "` already exists");
    ServiceError::Conflict(m)
}

/// A logout succeeds when the store revoked the session.
pub fn logout_outcome(revoked: bool) -> (r: ServiceResult<()>)
    ensures
        revoked ==> r is Ok,
        !revoked ==> crate::error::conflict_result(r, "session already revoked or not found"@),
{
    if revoked {
        Ok(())
    } else {
        Err(ServiceError::Conflict(string_of("session already revoked or not found")))
    }
}

// ---------------------------------------------------------------- bootstrap administrator

/// The administrator account as the store holds it.
#[derive(Clone, Debug)]
pub struct ExistingAdmin {
    pub username: String,
    pub display_name: String,
    pub password_hash: String,
    pub is_active: bool,
}

/// What bootstrap does to the administrator account.
#[derive(Clone, Copy, Debug, PartialEq, Eq, Structural)]
pub struct BootstrapAdminPlan {
    /// Write the account (profile and password hash).
    pub write_account: bool,
    /// Keep the stored password hash rather than hash the configured password anew.
    pub keep_password_hash: bool,
    /// Record the seed entry in the audit log (only when the account is new).
    pub record_seed_audit: bool,
}

/// The administrator account as values.
pub struct AdminAccountView {
    pub username: Seq<char>,
    pub display_name: Seq<char>,
    pub password_hash: Seq<char>,
    pub is_active: bool,
}

pub open spec fn opt_admin_view(e: Option<ExistingAdmin>) -> Option<AdminAccountView> {
    match e {
        Some(a) => Some(
            AdminAccountView {
                username: a.username@,
                display_name: a.display_name@,
                password_hash: a.password_hash@,
                is_active: a.is_active,
            },
        ),
        None => None,
    }
}

/// What bootstrap decides for the stored account and the configured one;
/// `None` when the stored hash cannot be checked.
pub open spec fn spec_bootstrap_plan(
    existing: Option<AdminAccountView>,
    username: Seq<char>,
    display_name: Seq<char>,
    password: Seq<char>,
) -> Option<BootstrapAdminPlan> {
    match existing {
        None => Some(BootstrapAdminPlan { write_account: true, keep_password_hash: false, record_seed_audit: true }),
        Some(e) => match spec_verify_password(e.password_hash, vstd::utf8::encode_utf8(password)) {
            Err(_) => None,
            Ok(matches_password) => {
                let profile_changed = e.username != username || e.display_name != display_name || !e.is_active;
                Some(
                    BootstrapAdminPlan {
                        write_account: profile_changed || !matches_password,
                        keep_password_hash: matches_password,
                        record_seed_audit: false,
                    },
                )
            },
        },
    }
}

/// The stored account after bootstrap carried out `plan`, with `fresh_hash`
/// as the new password hash where the stored one is not kept.
pub open spec fn spec_apply_bootstrap(
    existing: Option<AdminAccountView>,
    username: Seq<char>,
    display_name: Seq<char>,
    plan: BootstrapAdminPlan,
    fresh_hash: Seq<char>,
) -> Option<AdminAccountView> {
    if !plan.write_account {
        existing
    } else {
        Some(
            AdminAccountView {
                username,
                display_name,
                password_hash: match existing {
                    Some(e) if plan.keep_password_hash => e.password_hash,
                    _ => fresh_hash,
                },
                is_active: true,
            },
        )
    }
}

/// Decides what bootstrap does: the account is written when it is missing,
/// when its profile differs from the configuration or it is inactive, or when
/// the configured password no longer matches; a matching hash is kept.
pub fn plan_bootstrap_admin(existing: &Option<ExistingAdmin>, admin: &BootstrapAdminConfig) -> (r: Result<
    BootstrapAdminPlan,
    String,
>)
    requires
        existing matches Some(e) ==> fits_hash_input(e.password_hash@.len()),
        fits_text(admin.password@),
    ensures
        match spec_bootstrap_plan(opt_admin_view(*existing), admin.username@, admin.display_name@, admin.password@) {
            None => r matches Err(m) && m@ == "failed to verify bootstrap admin password hash"@,
            Some(p) => r == Ok::<BootstrapAdminPlan, String>(p),
        },
{
    let e = match existing {
        None => {
            return Ok(
                BootstrapAdminPlan { write_account: true, keep_password_hash: false, record_seed_audit: true },
            );
        },
        Some(e) => e,
    };
    let matches_password = match verify_password_hash(e.password_hash.as_str(), admin.password.as_str()) {
        Ok(b) => b,
        Err(_) => {
            return Err(string_of("failed to verify bootstrap admin password hash"));
        },
    };
    let profile_changed = !str_eq(e.username.as_str(), admin.username.as_str()) || !str_eq(
        e.display_name.as_str(),
        admin.display_name.as_str(),
    ) || !e.is_active;
    Ok(
        BootstrapAdminPlan {
            write_account: profile_changed || !matches_password,
            keep_password_hash: matches_password,
            record_seed_audit: false,
        },
    )
}

/// The account that bootstrap writes, or leaves, under `plan`: the configured
/// profile, active, with the stored hash where the plan keeps it and
/// `fresh_hash` otherwise.
pub fn bootstrap_admin_account(
    existing: &Option<ExistingAdmin>,
    admin: &BootstrapAdminConfig,
    plan: BootstrapAdminPlan,
    fresh_hash: &str,
) -> (r: Option<ExistingAdmin>)
    ensures
        opt_admin_view(r) == spec_apply_bootstrap(
            opt_admin_view(*existing),
            admin.username@,
            admin.display_name@,
            plan,
            fresh_hash@,
        ),
{
    if !plan.write_account {
        return match existing {
            Some(e) => Some(
                ExistingAdmin {
                    username: string_of(e.username.as_str()),
                    display_name: string_of(e.display_name.as_str()),
                    password_hash: string_of(e.password_hash.as_str()),
                    is_active: e.is_active,
                },
            ),
            None => None,
        };
    }
    let password_hash = match existing {
        Some(e) => if plan.keep_password_hash {
            string_of(e.password_hash.as_str())
        } else {
            string_of(fresh_hash)
        },
        None => string_of(fresh_hash),
    };
    Some(
        ExistingAdmin {
            username: string_of(admin.username.as_str()),
            display_name: string_of(admin.display_name.as_str()),
            password_hash,
            is_active: true,
        },
    )
}

/// Bootstrap converges in one run: after it the account carries the
/// configured profile, is active and checks against the configured password,
/// and a second run with the same configuration changes nothing and records
/// no second seed entry.
pub proof fn lemma_bootstrap_admin_converges(
    existing: Option<AdminAccountView>,
    username: Seq<char>,
    display_name: Seq<char>,
    password: Seq<char>,
    fresh_hash: Seq<char>,
    second_fresh_hash: Seq<char>,
)
    requires
        spec_bootstrap_plan(existing, username, display_name, password) is Some,
        spec_verify_password(fresh_hash, vstd::utf8::encode_utf8(password)) == Ok::<bool, Seq<char>>(true),
    ensures
        ({
            let first = spec_bootstrap_plan(existing, username, display_name, password)->0;
            let after = spec_apply_bootstrap(existing, username, display_name, first, fresh_hash);
            &&& after matches Some(a) && a.username == username && a.display_name == display_name && a.is_active
                && spec_verify_password(a.password_hash, vstd::utf8::encode_utf8(password)) == Ok::<
                bool,
                Seq<char>,
            >(true)
            &&& spec_bootstrap_plan(after, username, display_name, password) == Some(
                BootstrapAdminPlan { write_account: false, keep_password_hash: true, record_seed_audit: false },
            )
            &&& spec_apply_bootstrap(
                after,
                username,
                display_name,
                BootstrapAdminPlan { write_account: false, keep_password_hash: true, record_seed_audit: false },
                second_fresh_hash,
            ) == after
        }),
{
}

} // verus!
