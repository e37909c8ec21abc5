//! Application configuration: defaults, the listening address and the token secret.
use vstd::prelude::*;

use crate::text::{
    byte_len, chars_of, concat, decimal, decimal_string, is_ws, lemma_parse_decimal_u16, owned,
    parse_u16, parse_u16_spec, string_of, trim, trim_end, trim_start, trimmed,
};

verus! {

/// Main application configuration.
pub struct AppConfig {
    pub host: String,
    pub port: u16,
    pub database_url: String,
    pub jwt_secret: String,
    pub jwt_expiration_hours: u64,
    pub backup_path: String,
    pub log_path: String,
    pub frontend_path: String,
}

/// The port given by the value of `CORAOS_PORT`: 8080 when it is unset or does not
/// parse as a port number.
pub open spec fn port_setting(raw: Option<Seq<char>>) -> u16 {
    match raw {
        Some(s) => match parse_u16_spec(s) {
            Some(p) => p,
            None => 8080,
        },
        None => 8080,
    }
}

/// The port to listen on, from the value of `CORAOS_PORT` if it is set.
pub fn parse_port(raw: Option<&str>) -> (p: u16)
    ensures
        p == port_setting(
            match raw {
                Some(s) => Some(s@),
                None => None,
            },
        ),
{
    match raw {
        Some(s) => match parse_u16(s) {
            Some(p) => p,
            None => 8080,
        },
        None => 8080,
    }
}

impl AppConfig {
    /// The configuration with its defaults: all interfaces, a SQLite database at
    /// `database_path` created on demand, and tokens valid for 24 hours.
    pub fn with_defaults(
        port: u16,
        database_path: &str,
        jwt_secret: String,
        backup_path: String,
        log_path: String,
        frontend_path: String,
    ) -> (c: AppConfig)
        ensures
            c.host@ == "0.0.0.0"@,
            c.port == port,
            c.database_url@ == "sqlite:"@ + database_path@ + "?mode=rwc"@,
            c.jwt_secret == jwt_secret,
            c.jwt_expiration_hours == 24,
            c.backup_path == backup_path,
            c.log_path == log_path,
            c.frontend_path == frontend_path,
    {
        let mut url = owned("sqlite:");
        url.append(database_path);
        url.append("?mode=rwc");
        AppConfig {
            host: owned("0.0.0.0"),
            port,
            database_url: url,
            jwt_secret,
            jwt_expiration_hours: 24,
            backup_path,
            log_path,
            frontend_path,
        }
    }

    /// Returns the socket address to bind the server to: `host:port`.
    pub fn bind_address(&self) -> (s: String)
        ensures
            s@ == self.host@ + ":"@ + decimal(self.port as nat),
    {
        let mut s = self.host.clone();
        s.append(":");
        s.append(decimal_string(self.port as u64).as_str());
        s
    }
}

/// The port written in a bind address reads back as the same port.
pub proof fn lemma_bind_port_round_trip(port: u16)
    ensures
        parse_u16_spec(decimal(port as nat)) == Some(port),
{
    lemma_parse_decimal_u16(port);
}

/// The secret kept in the secret file, if it is usable: the trimmed content, when it
/// is at least 32 bytes long.
pub open spec fn stored_secret_of(content: Seq<char>) -> Option<Seq<char>> {
    if byte_len(trim(content)) >= 32 {
        Some(trim(content))
    } else {
        None
    }
}

/// Reads a stored secret from the content of the secret file.
pub fn stored_secret(content: &str) -> (r: Option<String>)
    ensures
        match r {
            Some(s) => stored_secret_of(content@) == Some(s@),
            None => stored_secret_of(content@) is None,
        },
{
    let t = trimmed(content);
    if t.as_str().as_bytes().len() >= 32 {
        Some(t)
    } else {
        None
    }
}

/// The lowercase hexadecimal digit of `d`.
pub open spec fn hex_digit(d: nat) -> char {
    if d < 10 {
        crate::text::digit_char(d)
    } else if d == 10 {
        'a'
    } else if d == 11 {
        'b'
    } else if d == 12 {
        'c'
    } else if d == 13 {
        'd'
    } else if d == 14 {
        'e'
    } else {
        'f'
    }
}

/// A byte in two lowercase hexadecimal digits (`format!("{:02x}", b)`).
pub open spec fn hex_byte(b: u8) -> Seq<char> {
    seq![hex_digit(b as nat / 16), hex_digit(b as nat % 16)]
}

/// The secret written for the given bytes: each byte in two lowercase hexadecimal
/// digits.
pub open spec fn hex_of(bytes: Seq<u8>) -> Seq<char>
    decreases bytes.len(),
{
    if bytes.len() == 0 {
        Seq::empty()
    } else {
        hex_of(bytes.drop_last()) + hex_byte(bytes.last())
    }
}

fn hex_char(d: u8) -> (c: char)
    requires
        d < 16,
    ensures
        c == hex_digit(d as nat),
{
    if d < 10 {
        crate::text::digit_of(d as u64)
    } else if d == 10 {
        'a'
    } else if d == 11 {
        'b'
    } else if d == 12 {
        'c'
    } else if d == 13 {
        'd'
    } else if d == 14 {
        'e'
    } else {
        'f'
    }
}

/// Calls `rand::thread_rng().gen::<u8>()`. Trusted for nothing about its value: the
/// byte is random.
#[verifier::external_body]
fn random_byte() -> (b: u8) {
    rand::Rng::gen::<u8>(&mut rand::thread_rng())
}

/// A fresh token secret: 64 random bytes written as 128 lowercase hexadecimal digits.
pub fn generate_secret() -> (s: String)
    ensures
        exists|bytes: Seq<u8>| bytes.len() == 64 && s@ == hex_of(bytes),
        s@.len() == 128,
{
    let mut out: Vec<char> = Vec::new();
    let ghost mut bytes: Seq<u8> = Seq::empty();
    let mut i: usize = 0;
    while i < 64
        invariant
            i <= 64,
            bytes.len() == i,
            out@ == hex_of(bytes),
            out@.len() == 2 * i,
        decreases 64 - i,
    {
        let b = random_byte();
        out.push(hex_char(b / 16));
        out.push(hex_char(b % 16));
        proof {
            let nb = bytes.push(b);
            assert(nb.drop_last() =~= bytes);
            assert(out@ =~= hex_of(bytes) + hex_byte(b));
            bytes = nb;
        }
        i = i + 1;
    }
    string_of(out.as_slice())
}

proof fn lemma_hex_of_shape(bytes: Seq<u8>)
    ensures
        hex_of(bytes).len() == 2 * bytes.len(),
        forall|i: int|
            0 <= i < hex_of(bytes).len() ==> ('0' <= #[trigger] hex_of(bytes)[i] <= '9') || ('a'
                <= hex_of(bytes)[i] <= 'f'),
    decreases bytes.len(),
{
    if bytes.len() > 0 {
        lemma_hex_of_shape(bytes.drop_last());
        let b = bytes.last();
        assert(b as nat / 16 < 16);
        assert forall|i: int|
            0 <= i < hex_of(bytes).len() implies ('0' <= #[trigger] hex_of(bytes)[i] <= '9') || (
            'a' <= hex_of(bytes)[i] <= 'f') by {
            let prev = hex_of(bytes.drop_last());
            if i < prev.len() {
                assert(hex_of(bytes)[i] == prev[i]);
            } else {
                assert(hex_of(bytes)[i] == hex_byte(b)[i - prev.len()]);
            }
        }
    }
}

/// A freshly generated secret is read back unchanged from the secret file: it holds
/// no white space and is longer than 32 bytes.
pub proof fn lemma_generated_secret_reads_back(bytes: Seq<u8>)
    requires
        bytes.len() == 64,
    ensures
        stored_secret_of(hex_of(bytes)) == Some(hex_of(bytes)),
{
    let s = hex_of(bytes);
    lemma_hex_of_shape(bytes);
    assert(!is_ws(s[0]));
    assert(trim_start(s) == s);
    assert(!is_ws(s.last()));
    assert(trim_end(s) == s);
    assert(vstd::utf8::is_ascii_chars(s));
    vstd::utf8::is_ascii_chars_encode_utf8(s);
}

} // verus!
