//! Authentication: password hashing and checking, the claims of a session token,
//! and the seeding of the first administrator.
use vstd::prelude::*;

use crate::text::{byte_len, lemma_ascii_byte_len, owned, starts_with};
use crate::clock::{UtcInstant, rfc3339_of, rfc3339_utc};
use crate::user::User;

verus! {

#[verifier::external_type_specification]
#[verifier::external_body]
pub struct ExPasswordHashError(argon2::password_hash::Error);

#[verifier::external_type_specification]
#[verifier::external_body]
pub struct ExJwtError(jsonwebtoken::errors::Error);

/// Why an authentication step failed.
pub enum AuthError {
    /// Hashing a password failed; the hasher's own error is kept.
    Hashing(argon2::password_hash::Error),
    /// A stored hash is not a valid PHC string; the parser's own error is kept.
    InvalidHashFormat(argon2::password_hash::Error),
    /// The expiry of a token cannot be represented as a date.
    ExpiryOutOfRange,
    /// Signing a token failed; the signer's own error is kept.
    Signing(jsonwebtoken::errors::Error),
    /// A token is malformed, not signed with the secret, or expired.
    InvalidToken,
}

/// What Argon2id with default parameters produces for `password` and the
/// Base64 salt `salt`, as a PHC string; `None` where hashing fails.
pub uninterp spec fn argon2_phc(password: Seq<char>, salt: Seq<char>) -> Option<Seq<char>>;

/// Whether `hash` parses as a PHC string.
pub uninterp spec fn phc_parses(hash: Seq<char>) -> bool;

/// Whether Argon2 with default settings accepts `password` against the PHC string `hash`.
pub uninterp spec fn argon2_accepts(password: Seq<char>, hash: Seq<char>) -> bool;

/// A character of the standard Base64 alphabet.
pub open spec fn b64_char(c: char) -> bool {
    ||| ('A' <= c && c <= 'Z')
    ||| ('a' <= c && c <= 'z')
    ||| ('0' <= c && c <= '9')
    ||| c == '+'
    ||| c == '/'
}

/// The unpadded Base64 text of 16 bytes: 22 characters of the alphabet, the last of
/// which carries two bits and four zero bits (`A`, `Q`, `g` or `w`).
pub open spec fn b64_salt(s: Seq<char>) -> bool {
    &&& s.len() == 22
    &&& forall|i: int| 0 <= i < 22 ==> b64_char(#[trigger] s[i])
    &&& (s[21] == 'A' || s[21] == 'Q' || s[21] == 'g' || s[21] == 'w')
}

/// Calls `SaltString::generate` with the operating system's random source. Trusted:
/// the salt, random, is the unpadded Base64 encoding of 16 random bytes, as
/// `generate` encodes `Salt::RECOMMENDED_LENGTH` bytes with `Base64Unpadded`.
#[verifier::external_body]
fn random_salt() -> (s: String)
    ensures
        b64_salt(s@),
{
    argon2::password_hash::SaltString::generate(&mut argon2::password_hash::rand_core::OsRng)
        .as_str().to_owned()
}

/// Calls `Salt::from_b64` and `PasswordHasher::hash_password` of `Argon2::default()`,
/// and renders the hash as a PHC string. Trusted: the outcome is `argon2_phc(password,
/// salt)`; a hash it returns starts `$argon2id$` (the default algorithm is Argon2id),
/// parses as a PHC string and verifies against the same password (the PHC string
/// carries algorithm, version, parameters and salt, and the verifier recomputes the
/// hash from them); and hashing succeeds for a Base64 salt of 16 bytes and a password
/// of at most `0xFFFFFFFF` bytes (`Argon2::verify_inputs` refuses only longer passwords
/// and salts outside 8 to 64 bytes, and `from_b64` and the decoding accept such a salt).
#[verifier::external_body]
fn argon2_hash(password: &str, salt: &str) -> (r: Result<String, argon2::password_hash::Error>)
    ensures
        match r {
            Ok(h) => argon2_phc(password@, salt@) == Some(h@) && phc_parses(h@) && argon2_accepts(
                password@,
                h@,
            ) && starts_with(h@, "$argon2id$"@),
            Err(_) => argon2_phc(password@, salt@) is None,
        },
        b64_salt(salt@) && byte_len(password@) <= 0xFFFF_FFFF ==> r is Ok,
{
    let salt = argon2::password_hash::Salt::from_b64(salt)?;
    let hash = argon2::PasswordHasher::hash_password(
        &argon2::Argon2::default(),
        password.as_bytes(),
        salt,
    )?;
    Ok(hash.to_string())
}

/// Calls `PasswordHash::new` on `hash` and then `PasswordVerifier::verify_password` of
/// `Argon2::default()`. Trusted: `Ok` exactly when the hash parses, and then whether
/// the password is accepted.
#[verifier::external_body]
fn argon2_check(password: &str, hash: &str) -> (r: Result<bool, argon2::password_hash::Error>)
    ensures
        r is Ok <==> phc_parses(hash@),
        r matches Ok(b) ==> b == argon2_accepts(password@, hash@),
{
    let parsed = argon2::password_hash::PasswordHash::new(hash)?;
    Ok(argon2::PasswordVerifier::verify_password(
        &argon2::Argon2::default(),
        password.as_bytes(),
        &parsed,
    ).is_ok())
}

/// What `verify_password` answers: `None` for a hash that does not parse, else
/// whether the password matches.
pub open spec fn verification(password: Seq<char>, hash: Seq<char>) -> Option<bool> {
    if phc_parses(hash) {
        Some(argon2_accepts(password, hash))
    } else {
        None
    }
}

/// Hash a plaintext password using Argon2id with a fresh random salt. Hashing succeeds
/// for any password of at most `0xFFFFFFFF` bytes; the hash is the Argon2id PHC string
/// of the password under a 16-byte salt, and verifying the password against it
/// succeeds.
pub fn hash_password(password: &str) -> (r: Result<String, AuthError>)
    ensures
        r matches Ok(h) ==> (exists|salt: Seq<char>|
            b64_salt(salt) && argon2_phc(password@, salt) == Some(h@))
            && verification(password@, h@) == Some(true) && starts_with(h@, "$argon2id$"@),
        r matches Err(e) ==> e is Hashing,
        byte_len(password@) <= 0xFFFF_FFFF ==> r is Ok,
{
    let salt = random_salt();
    match argon2_hash(password, salt.as_str()) {
        Ok(h) => Ok(h),
        Err(e) => Err(AuthError::Hashing(e)),
    }
}

/// Verify a plaintext password against a stored hash: an error when the hash is not
/// a PHC string, else whether the password matches it.
pub fn verify_password(password: &str, hash: &str) -> (r: Result<bool, AuthError>)
    ensures
        match verification(password@, hash@) {
            Some(b) => r == Ok::<bool, AuthError>(b),
            None => r matches Err(e) && e is InvalidHashFormat,
        },
{
    match argon2_check(password, hash) {
        Ok(b) => Ok(b),
        Err(e) => Err(AuthError::InvalidHashFormat(e)),
    }
}

/// A password that was hashed verifies against its hash.
pub proof fn lemma_hash_then_verify(password: Seq<char>, hash: Seq<char>)
    requires
        verification(password, hash) == Some(true),
    ensures
        phc_parses(hash),
        argon2_accepts(password, hash),
{
}

/// The decision of a login once the account is looked up: no account, or a password
/// that does not match, gives `None`; a matching password gives the account; a stored
/// hash that does not parse is an error.
pub fn check_credentials(user: Option<User>, password: &str) -> (r: Result<Option<User>, AuthError>)
    ensures
        match user {
            None => r matches Ok(None),
            Some(u) => match verification(password@, u.password_hash@) {
                Some(true) => r == Ok::<Option<User>, AuthError>(Some(u)),
                Some(false) => r matches Ok(None),
                None => r matches Err(e) && e is InvalidHashFormat,
            },
        },
{
    match user {
        None => Ok(None),
        Some(u) => {
            match verify_password(password, u.password_hash.as_str()) {
                Ok(true) => Ok(Some(u)),
                Ok(false) => Ok(None),
                Err(e) => Err(e),
            }
        },
    }
}

/// A user record to insert.
pub struct NewUserRecord {
    pub id: String,
    pub username: String,
    pub password_hash: String,
    pub role: String,
    pub display_name: Option<String>,
    pub email: Option<String>,
}

/// The administrator seeded into an empty user table: none when users exist; else
/// `admin` with the password `admin123`, the `admin` role and the display name
/// `Administrator`.
pub fn default_admin(user_count: i64, id: String) -> (r: Result<Option<NewUserRecord>, AuthError>)
    ensures
        user_count != 0 ==> r matches Ok(None),
        user_count == 0 ==> (r matches Ok(Some(rec)) && {
            &&& rec.id == id
            &&& rec.username@ == "admin"@
            &&& rec.role@ == "admin"@
            &&& rec.display_name matches Some(d) && d@ == "Administrator"@
            &&& rec.email is None
            &&& verification("admin123"@, rec.password_hash@) == Some(true)
        }),
{
    if user_count != 0 {
        return Ok(None);
    }
    proof {
        reveal_strlit("admin123");
        lemma_ascii_byte_len("admin123"@);
    }
    let password_hash = hash_password("admin123")?;
    Ok(
        Some(
            NewUserRecord {
                id,
                username: owned("admin"),
                password_hash,
                role: owned("admin"),
                display_name: Some(owned("Administrator")),
                email: None,
            },
        ),
    )
}

// ---------------------------------------------------------------------------
// Session tokens
// ---------------------------------------------------------------------------

/// The claims of a session token.
pub struct Claims {
    /// Subject (user ID)
    pub sub: String,
    /// Username
    pub username: String,
    /// User role
    pub role: String,
    /// Expiration timestamp (Unix epoch seconds)
    pub exp: usize,
    /// Issued at timestamp
    pub iat: usize,
}

/// The second of expiry of a token issued at `now_secs` for `hours` hours, with the
/// hours taken as a signed 64-bit number; `None` when it leaves the 64-bit range.
pub open spec fn expiry_secs(now_secs: i64, hours: u64) -> Option<i64> {
    let h = hours as i64;
    let delta = h * 3600;
    if i64::MIN <= delta <= i64::MAX && i64::MIN <= now_secs + delta <= i64::MAX {
        Some((now_secs + delta) as i64)
    } else {
        None
    }
}

/// The claims of a token issued at `now` for `expiration_hours` hours, and its expiry
/// in RFC 3339. The expiry keeps the sub-second part of `now`. When the expiry is no
/// date the token cannot be issued.
pub fn token_claims(
    user_id: &str,
    username: &str,
    role: &str,
    now: UtcInstant,
    expiration_hours: u64,
) -> (r: Result<(Claims, String), AuthError>)
    ensures
        match expiry_secs(now.secs, expiration_hours) {
            Some(e) => match rfc3339_of(e, now.nanos) {
                Some(t) => r matches Ok((c, text)) && text@ == t && c.sub@ == user_id@
                    && c.username@ == username@ && c.role@ == role@ && c.exp == e as usize && c.iat
                    == now.secs as usize,
                None => r matches Err(err) && err is ExpiryOutOfRange,
            },
            None => r matches Err(err) && err is ExpiryOutOfRange,
        },
{
    let hours = expiration_hours as i64;
    let delta = match hours.checked_mul(3600) {
        Some(d) => d,
        None => return Err(AuthError::ExpiryOutOfRange),
    };
    let exp = match now.secs.checked_add(delta) {
        Some(e) => e,
        None => return Err(AuthError::ExpiryOutOfRange),
    };
    let text = match rfc3339_utc(UtcInstant { secs: exp, nanos: now.nanos }) {
        Some(t) => t,
        None => return Err(AuthError::ExpiryOutOfRange),
    };
    let claims = Claims {
        sub: owned(user_id),
        username: owned(username),
        role: owned(role),
        exp: exp as usize,
        iat: now.secs as usize,
    };
    Ok((claims, text))
}


/// A token issued for `hours` hours (up to the 64-bit range) expires exactly that many
/// hours after it was issued.
pub proof fn lemma_token_lifetime(now_secs: i64, hours: u64)
    requires
        hours <= i64::MAX / 3600,
        now_secs + hours * 3600 <= i64::MAX,
    ensures
        expiry_secs(now_secs, hours) == Some((now_secs + hours * 3600) as i64),
{
    assert((hours as i64) == hours);
}

// ---------------------------------------------------------------------------
// Signed tokens
// ---------------------------------------------------------------------------

/// The payload members a session token carries: the string members `sub`,
/// `username` and `role`, and the unsigned members `exp` and `iat`, each absent when
/// missing or of another type.
pub struct TokenFields {
    pub sub: Option<String>,
    pub username: Option<String>,
    pub role: Option<String>,
    pub exp: Option<u64>,
    pub iat: Option<u64>,
}

pub open spec fn ov(o: Option<String>) -> Option<Seq<char>> {
    match o {
        Some(s) => Some(s@),
        None => None,
    }
}

pub open spec fn fields_view(r: Option<TokenFields>) -> Option<
    (Option<Seq<char>>, Option<Seq<char>>, Option<Seq<char>>, Option<u64>, Option<u64>),
> {
    match r {
        Some(f) => Some((ov(f.sub), ov(f.username), ov(f.role), f.exp, f.iat)),
        None => None,
    }
}

/// What `jsonwebtoken::decode::<serde_json::Value>` answers for `token` under the HMAC
/// secret `secret`, with the default validation except the expiry, which is not
/// checked: `None` when the token is refused (not three parts, a header or signature
/// that is not HS256 under the secret, a payload without an unsigned `exp`, an `aud`
/// member); else the members `sub`, `username`, `role`, `exp` and `iat` of the payload.
pub uninterp spec fn jwt_payload(token: Seq<char>, secret: Seq<char>) -> Option<
    (Option<Seq<char>>, Option<Seq<char>>, Option<Seq<char>>, Option<u64>, Option<u64>),
>;

/// Calls `jsonwebtoken::decode::<serde_json::Value>` with `Validation::default()`
/// minus the expiry check, and reads the members of the payload. Trusted: the outcome
/// is `jwt_payload(token, secret)`.
#[verifier::external_body]
fn jwt_decode(token: &str, secret: &str) -> (r: Option<TokenFields>)
    ensures
        fields_view(r) == jwt_payload(token@, secret@),
{
    let mut validation = jsonwebtoken::Validation::default();
    validation.validate_exp = false;
    let key = jsonwebtoken::DecodingKey::from_secret(secret.as_bytes());
    let d = jsonwebtoken::decode::<serde_json::Value>(token, &key, &validation).ok()?;
    let text = |k: &str| d.claims[k].as_str().map(str::to_owned);
    Some(TokenFields {
        sub: text("sub"), username: text("username"), role: text("role"),
        exp: d.claims["exp"].as_u64(), iat: d.claims["iat"].as_u64(),
    })
}

/// Calls `jsonwebtoken::encode` with the default header (HS256) on the JSON object
/// `{sub, username, role, exp, iat}`, signed with `secret`. Trusted: signing succeeds
/// (`encode` fails only for a key of another family than the header's algorithm, and
/// an HMAC key from a secret is of the HS256 family), and decoding the token under the
/// same secret gives back the members that were signed.
#[verifier::external_body]
fn jwt_encode(sub: &str, username: &str, role: &str, exp: u64, iat: u64, secret: &str) -> (r:
    Result<String, jsonwebtoken::errors::Error>)
    ensures
        r is Ok,
        r matches Ok(t) ==> jwt_payload(t@, secret@) == Some(
            (Some(sub@), Some(username@), Some(role@), Some(exp), Some(iat)),
        ),
{
    let mut claims = serde_json::Map::new();
    claims.insert("sub".to_owned(), sub.into());
    claims.insert("username".to_owned(), username.into());
    claims.insert("role".to_owned(), role.into());
    claims.insert("exp".to_owned(), exp.into());
    claims.insert("iat".to_owned(), iat.into());
    let key = jsonwebtoken::EncodingKey::from_secret(secret.as_bytes());
    jsonwebtoken::encode(&jsonwebtoken::Header::default(), &claims, &key)
}

/// Generate a signed token for an authenticated user: the token, whose payload holds
/// the claims of `token_claims`, and its expiry in RFC 3339.
pub fn generate_token(
    user_id: &str,
    username: &str,
    role: &str,
    secret: &str,
    now: UtcInstant,
    expiration_hours: u64,
) -> (r: Result<(String, String), AuthError>)
    ensures
        match expiry_secs(now.secs, expiration_hours) {
            Some(e) => match rfc3339_of(e, now.nanos) {
                Some(t) => r matches Ok((tok, text)) && text@ == t && jwt_payload(tok@, secret@)
                    == Some(
                    (
                        Some(user_id@),
                        Some(username@),
                        Some(role@),
                        Some(e as usize as u64),
                        Some(now.secs as usize as u64),
                    ),
                ),
                None => r matches Err(err) && err is ExpiryOutOfRange,
            },
            None => r matches Err(err) && err is ExpiryOutOfRange,
        },
{
    let (claims, text) = token_claims(user_id, username, role, now, expiration_hours)?;
    match jwt_encode(
        claims.sub.as_str(),
        claims.username.as_str(),
        claims.role.as_str(),
        claims.exp as u64,
        claims.iat as u64,
        secret,
    ) {
        Ok(t) => Ok((t, text)),
        Err(e) => Err(AuthError::Signing(e)),
    }
}

/// The claims a token checks out as at the second `now_secs`, from its decoded
/// payload: all five members present, `exp` and `iat` within `usize`, and the token
/// not expired more than 60 seconds ago (the default leeway).
pub open spec fn token_verdict(
    p: Option<(Option<Seq<char>>, Option<Seq<char>>, Option<Seq<char>>, Option<u64>, Option<u64>)>,
    now_secs: i64,
) -> Option<(Seq<char>, Seq<char>, Seq<char>, u64, u64)> {
    match p {
        Some((Some(sub), Some(name), Some(role), Some(exp), Some(iat))) => if exp <= usize::MAX
            && iat <= usize::MAX && exp + 60 >= now_secs {
            Some((sub, name, role, exp, iat))
        } else {
            None
        },
        _ => None,
    }
}

/// Validate and decode a token at the instant `now`: the claims it carries when it
/// is signed with `secret` and not expired, else `InvalidToken`.
pub fn validate_token(token: &str, secret: &str, now: UtcInstant) -> (r: Result<Claims, AuthError>)
    ensures
        match token_verdict(jwt_payload(token@, secret@), now.secs) {
            Some((sub, name, role, exp, iat)) => r matches Ok(c) && c.sub@ == sub && c.username@
                == name && c.role@ == role && c.exp == exp && c.iat == iat,
            None => r matches Err(e) && e is InvalidToken,
        },
{
    let f = match jwt_decode(token, secret) {
        Some(f) => f,
        None => return Err(AuthError::InvalidToken),
    };
    match (f.sub, f.username, f.role, f.exp, f.iat) {
        (Some(sub), Some(username), Some(role), Some(exp), Some(iat)) => {
            if exp > usize::MAX as u64 || iat > usize::MAX as u64 {
                return Err(AuthError::InvalidToken);
            }
            if (exp as i128) + 60 < now.secs as i128 {
                return Err(AuthError::InvalidToken);
            }
            Ok(Claims { sub, username, role, exp: exp as usize, iat: iat as usize })
        },
        _ => Err(AuthError::InvalidToken),
    }
}

/// A token issued at `now_secs` for `hours` hours checks out, with the claims it was
/// issued with, at every second up to 60 seconds past its expiry.
pub proof fn lemma_issued_token_checks_out(
    user_id: Seq<char>,
    username: Seq<char>,
    role: Seq<char>,
    now_secs: i64,
    hours: u64,
    exp: i64,
    later: i64,
)
    requires
        expiry_secs(now_secs, hours) == Some(exp),
        hours <= i64::MAX,
        0 <= now_secs,
        exp <= usize::MAX,
        later <= exp + 60,
    ensures
        token_verdict(
            Some(
                (
                    Some(user_id),
                    Some(username),
                    Some(role),
                    Some(exp as usize as u64),
                    Some(now_secs as usize as u64),
                ),
            ),
            later,
        ) == Some((user_id, username, role, exp as u64, now_secs as u64)),
{
    assert((hours as i64) == hours);
    assert(exp >= now_secs);
    assert((exp as usize) as u64 == exp as u64);
    assert((now_secs as usize) as u64 == now_secs as u64);
}

} // verus!
