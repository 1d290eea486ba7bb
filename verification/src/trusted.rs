//! The crate's trusted boundary: every call into an outside crate (and the
//! one `std` call that vstd gives no specification for) lives here, behind a
//! wrapper whose contract states only what the outside source shows.

use base64::Engine;
use vstd::prelude::*;

verus! {

/// Relies on `String::push`: appends the given character to the end of the
/// string.
#[verifier::external_body]
pub(crate) fn push_char(s: &mut String, c: char)
    ensures
        final(s)@ == old(s)@.push(c),
{
    s.push(c)
}

/// Relies on `std::time::SystemTime::now` and `duration_since`: the current
/// time as milliseconds since the Unix epoch, zero when the system clock
/// reads before it (so the reading never aborts). Nothing can be promised of
/// a clock reading.
#[verifier::external_body]
pub(crate) fn now_millis() -> i64 {
    match std::time::SystemTime::now().duration_since(std::time::UNIX_EPOCH) {
        Ok(d) => d.as_millis() as i64,
        Err(_) => 0,
    }
}

/// Relies on `uuid::Builder::from_unix_timestamp_millis` and
/// `Uuid::as_u128`, with the clock read as in `now_millis` and the ten
/// random bytes drawn by `getrandom::fill`: a freshly built version-7 id,
/// with no abort path. Uniqueness is probabilistic, so nothing is promised;
/// callers check for collisions themselves.
#[verifier::external_body]
pub(crate) fn fresh_id() -> u128 {
    let millis = match std::time::SystemTime::now().duration_since(std::time::UNIX_EPOCH) {
        Ok(d) => d.as_millis() as u64,
        Err(_) => 0,
    };
    let mut bytes = [0u8; 10];
    let _ = getrandom::fill(&mut bytes);
    uuid::Builder::from_unix_timestamp_millis(millis, &bytes).into_uuid().as_u128()
}

/// Relies on `getrandom::fill`: fills the buffer with random bytes and
/// reports whether the platform randomness source answered. Of a random
/// value nothing can be promised; the buffer keeps its length either way.
#[verifier::external_body]
pub(crate) fn fill_random(buf: &mut Vec<u8>) -> (ok: bool)
    ensures
        final(buf)@.len() == old(buf)@.len(),
{
    getrandom::fill(buf.as_mut_slice()).is_ok()
}

/// Relies on `base64::engine::Engine::encode` with the `STANDARD_NO_PAD`
/// engine: the unpadded encoding of `n` input bytes has exactly
/// `n / 3 * 4` characters plus 2 for a 1-byte remainder or 3 for a 2-byte
/// remainder, as `base64::encoded_len` documents.
#[verifier::external_body]
pub(crate) fn base64_encode_no_pad(b: &Vec<u8>) -> (r: String)
    ensures
        b@.len() % 3 == 0 ==> r@.len() == b@.len() / 3 * 4,
        b@.len() % 3 == 1 ==> r@.len() == b@.len() / 3 * 4 + 2,
        b@.len() % 3 == 2 ==> r@.len() == b@.len() / 3 * 4 + 3,
{
    base64::engine::general_purpose::STANDARD_NO_PAD.encode(b)
}

/// Whether `password` is the password that the PHC-format hash string `hash`
/// was derived from. This is a pure function of the two strings; it is given
/// a name rather than a definition because its value is the outside crate's
/// PBKDF2 computation.
pub uninterp spec fn password_matches(password: Seq<char>, hash: Seq<char>) -> bool;

/// Relies on `pbkdf2::Pbkdf2` as a `password_hash::PasswordHasher`, with a
/// fresh random salt from `getrandom::fill` encoded by
/// `password_hash::SaltString::encode_b64`: hashing succeeds for a valid salt
/// and valid parameters, and `password_hash` documents that verifying a
/// password against the hash it produced succeeds (the PHC string carries
/// its own salt and parameters — which is also why a refused randomness
/// source cannot falsify the clause; it only costs salt freshness).
#[verifier::external_body]
pub(crate) fn password_hash(password: &str) -> (r: String)
    ensures
        password_matches(password@, r@),
{
    let mut salt_bytes = [0u8; 16];
    let _ = getrandom::fill(&mut salt_bytes);
    let salt = pbkdf2::password_hash::SaltString::encode_b64(&salt_bytes)
        .expect("salt length is valid");
    let params = pbkdf2::Params { rounds: 4096, output_length: 32 };
    pbkdf2::password_hash::PasswordHasher::hash_password_customized(
        &pbkdf2::Pbkdf2, password.as_bytes(), None, None, params, salt.as_salt(),
    ).expect("hashing with a valid salt succeeds").to_string()
}

/// Relies on `password_hash::PasswordHash::new` and
/// `pbkdf2::Pbkdf2` as a `password_hash::PasswordVerifier`: true exactly when
/// `hash` parses as a PHC string and the password re-derives it.
#[verifier::external_body]
pub(crate) fn password_verify(password: &str, hash: &str) -> (r: bool)
    ensures
        r == password_matches(password@, hash@),
{
    match pbkdf2::password_hash::PasswordHash::new(hash) {
        Ok(parsed) => pbkdf2::password_hash::PasswordVerifier::verify_password(
            &pbkdf2::Pbkdf2,
            password.as_bytes(),
            &parsed,
        ).is_ok(),
        Err(_) => false,
    }
}

/// What `simple_useragent` reads out of a `User-Agent` header: the client
/// family, the client version if any, and the operating system family. A pure
/// function of the header string (the parser's rule set is fixed), named
/// rather than defined because its value is the outside crate's rule tables.
pub uninterp spec fn ua_parts(user_agent: Seq<char>) -> (Seq<char>, Option<Seq<char>>, Seq<char>);

/// Relies on `simple_useragent::UserAgentParser::new` and
/// `UserAgentParser::parse`: the parse depends on the header string alone.
#[verifier::external_body]
pub(crate) fn parse_user_agent(user_agent: &str) -> (r: (String, Option<String>, String))
    ensures
        r.0@ == ua_parts(user_agent@).0,
        r.1 is Some <==> ua_parts(user_agent@).1 is Some,
        r.1 is Some ==> r.1->0@ == ua_parts(user_agent@).1->0,
        r.2@ == ua_parts(user_agent@).2,
{
    let parser = simple_useragent::UserAgentParser::new();
    let ua = parser.parse(user_agent);
    (ua.client.family, ua.client.version, ua.os.family)
}

} // verus!
