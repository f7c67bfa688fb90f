//! Access to the two secrets the store may need: the remote auth token
//! and the local encryption key, kept in the operating system's
//! credential store, plus the generator for a fresh random key.
//!
//! What the credential store returns depends on the machine, so nothing
//! is promised about the secret values themselves; the random key's
//! format, however, is pinned exactly.

use vstd::prelude::*;

use crate::errors::GraphError;

verus! {

/// The service name the credential store files secrets under.
pub const SERVICE_NAME: &'static str = "graphctl";

/// The entry name of the remote store auth token.
pub const REMOTE_DB_AUTH_TOKEN_KEY: &'static str = "db_auth_token";

/// The entry name of the local storage encryption key.
pub const LOCAL_DB_ENCRYPTION_KEY: &'static str = "db_encryption_key";

#[verifier::external_type_specification]
#[verifier::external_body]
pub struct ExEntry(keyring::Entry);

/// Relies on `keyring::Entry::new`: a handle to one credential-store
/// entry.  Failure means the credential store is unusable.
#[verifier::external_body]
fn entry_new(service: &str, name: &str) -> (r: Result<keyring::Entry, GraphError>)
    ensures
        r matches Err(e) ==> e == GraphError::Connection,
{
    keyring::Entry::new(service, name).map_err(|_| GraphError::Connection)
}

/// Relies on `keyring::Entry::get_password`: the secret the credential
/// store holds for the entry.  The value depends on the machine, so
/// nothing is promised about it.
#[verifier::external_body]
fn entry_get_password(entry: &keyring::Entry) -> (r: Result<String, GraphError>)
    ensures
        r matches Err(e) ==> e == GraphError::Connection,
{
    entry.get_password().map_err(|_| GraphError::Connection)
}

/// Relies on `keyring::Entry::set_password`: stores the secret under the
/// entry.
#[verifier::external_body]
fn entry_set_password(entry: &keyring::Entry, secret: &str) -> (r: Result<(), GraphError>)
    ensures
        r matches Err(e) ==> e == GraphError::Connection,
{
    entry.set_password(secret).map_err(|_| GraphError::Connection)
}

/// Read one secret from the credential store.
fn get_secret(key: &str) -> (r: Result<String, GraphError>)
    ensures
        r matches Err(e) ==> e == GraphError::Connection,
{
    let entry = entry_new(SERVICE_NAME, key)?;
    entry_get_password(&entry)
}

/// Store one secret in the credential store.
fn set_secret(key: &str, val: &str) -> (r: Result<(), GraphError>)
    ensures
        r matches Err(e) ==> e == GraphError::Connection,
{
    let entry = entry_new(SERVICE_NAME, key)?;
    entry_set_password(&entry, val)
}

/// Returns the remote store authentication token.
pub fn get_remote_db_auth_token() -> (r: Result<String, GraphError>)
    ensures
        r matches Err(e) ==> e == GraphError::Connection,
{
    get_secret(REMOTE_DB_AUTH_TOKEN_KEY)
}

/// Returns the local storage encryption key.
pub fn get_local_db_encryption_key() -> (r: Result<String, GraphError>)
    ensures
        r matches Err(e) ==> e == GraphError::Connection,
{
    get_secret(LOCAL_DB_ENCRYPTION_KEY)
}

/// Sets the remote store authentication token.
pub fn set_remote_db_auth_token(token: &str) -> (r: Result<(), GraphError>)
    ensures
        r matches Err(e) ==> e == GraphError::Connection,
{
    set_secret(REMOTE_DB_AUTH_TOKEN_KEY, token)
}

/// Sets the local storage encryption key.
pub fn set_local_db_encryption_key(encryption_key: &str) -> (r: Result<(), GraphError>)
    ensures
        r matches Err(e) ==> e == GraphError::Connection,
{
    set_secret(LOCAL_DB_ENCRYPTION_KEY, encryption_key)
}

#[verifier::external_type_specification]
#[verifier::external_body]
pub struct ExSystemRandom(ring::rand::SystemRandom);

/// Relies on `ring::rand::SystemRandom::new`: a handle to the system's
/// random number generator.
#[verifier::external_body]
fn system_random_new() -> ring::rand::SystemRandom {
    ring::rand::SystemRandom::new()
}

/// Relies on `ring::rand::SecureRandom::fill` on a `SystemRandom`: fills
/// a buffer of 32 bytes.  The bytes are random, so only the length is
/// promised.
#[verifier::external_body]
fn fill_random_32(rng: &ring::rand::SystemRandom) -> (r: Result<Vec<u8>, GraphError>)
    ensures
        r matches Ok(b) ==> b@.len() == 32,
        r matches Err(e) ==> e == GraphError::Connection,
{
    let mut buf = [0u8; 32];
    match ring::rand::SecureRandom::fill(rng, &mut buf) {
        Ok(_) => Ok(buf.to_vec()),
        Err(_) => Err(GraphError::Connection),
    }
}

/// The sixteen lowercase hexadecimal digits, in value order.
pub open spec fn hex_chars() -> Seq<char> {
    seq!['0', '1', '2', '3', '4', '5', '6', '7', '8', '9', 'a', 'b', 'c', 'd', 'e', 'f']
}

/// The lowercase hexadecimal text denoting a byte string: two digits per
/// byte, high nibble first.
pub open spec fn hex_of(bytes: Seq<u8>) -> Seq<char>
    decreases bytes.len(),
{
    if bytes.len() == 0 {
        Seq::empty()
    } else {
        hex_of(bytes.drop_last()).push(hex_chars()[bytes.last() as int / 16]).push(
            hex_chars()[bytes.last() as int % 16],
        )
    }
}

/// Hexadecimal text is twice as long as the bytes it denotes.
pub proof fn lemma_hex_of_len(bytes: Seq<u8>)
    ensures
        hex_of(bytes).len() == 2 * bytes.len(),
    decreases bytes.len(),
{
    if bytes.len() > 0 {
        lemma_hex_of_len(bytes.drop_last());
    }
}

/// Every character of hexadecimal text is a lowercase hex digit.
pub proof fn lemma_hex_of_digits(bytes: Seq<u8>)
    ensures
        forall|i: int|
            0 <= i < hex_of(bytes).len() ==> hex_chars().contains(#[trigger] hex_of(bytes)[i]),
    decreases bytes.len(),
{
    if bytes.len() > 0 {
        lemma_hex_of_digits(bytes.drop_last());
        let prev = hex_of(bytes.drop_last());
        let hi = bytes.last() as int / 16;
        let lo = bytes.last() as int % 16;
        assert(0 <= hi < 16 && 0 <= lo < 16);
        assert(hex_chars()[hi] == hex_chars()[hi]);
        assert(hex_chars().contains(hex_chars()[hi]));
        assert(hex_chars().contains(hex_chars()[lo]));
    }
}

/// Relies on `hex::encode`: the lowercase hexadecimal text of the bytes,
/// two digits per byte, high nibble first.  The result depends on the
/// bytes alone.
#[verifier::external_body]
fn hex_encode(bytes: &Vec<u8>) -> (r: String)
    ensures
        r@ == hex_of(bytes@),
{
    hex::encode(bytes)
}

/// Generate a fresh random key: 32 random bytes as 64 lowercase
/// hexadecimal digits.
pub fn generate_random_hex_string() -> (r: Result<String, GraphError>)
    ensures
        r matches Ok(s) ==> s@.len() == 64 && (forall|i: int|
            0 <= i < s@.len() ==> hex_chars().contains(#[trigger] s@[i])),
        r matches Err(e) ==> e == GraphError::Connection,
{
    let rng = system_random_new();
    let bytes = fill_random_32(&rng)?;
    let s = hex_encode(&bytes);
    proof {
        lemma_hex_of_len(bytes@);
        lemma_hex_of_digits(bytes@);
    }
    Ok(s)
}

} // verus!
