use vstd::prelude::*;
use vstd::utf8::encode_utf8;

use ring::pbkdf2;
use ring::rand::SecureRandom;
use ring::rand::SystemRandom;
use std::num::NonZeroU32;

use crate::errors::Error;

verus! {

/// PBKDF2 rounds for each password.
pub const ITERATIONS: u32 = 100_000;

/// Bytes of salt for each password.
pub const SALT_SIZE: usize = 64;

/// Bytes of each derived credential: the output of SHA-512.
pub const CREDENTIAL_SIZE: usize = 64;

/// The key that PBKDF2 with HMAC-SHA-512 derives, `len` bytes long, from an
/// iteration count, a salt and a secret.
pub uninterp spec fn pbkdf2_sha512(iterations: u32, salt: Seq<u8>, secret: Seq<u8>, len: nat) -> Seq<u8>;

/// Relies on ring::rand::SystemRandom::fill: fills `buf` from the operating
/// system's generator, or fails. Nothing is promised of the bytes.
#[verifier::external_body]
fn fill_random(buf: &mut [u8; SALT_SIZE]) -> (r: Result<(), ()>) {
    SystemRandom::new().fill(buf).map_err(|_| ())
}

/// Relies on ring::pbkdf2::derive with PBKDF2_HMAC_SHA512: writes into `out`
/// the key derived from the iteration count, salt and secret. A zero count
/// cannot be given to it (NonZeroU32::new gives None). It panics only on
/// inputs too large for SHA-512, which no slice in memory reaches.
#[verifier::external_body]
fn pbkdf2_derive(iterations: u32, salt: &[u8; SALT_SIZE], secret: &[u8], out: &mut [u8; CREDENTIAL_SIZE]) -> (r: Result<(), ()>)
    ensures
        r is Ok <==> iterations != 0,
        r is Ok ==> final(out)@ == pbkdf2_sha512(iterations, salt@, secret@, CREDENTIAL_SIZE as nat),
{
    match NonZeroU32::new(iterations) {
        Some(n) => {
            pbkdf2::derive(pbkdf2::PBKDF2_HMAC_SHA512, n, salt, secret, out);
            Ok(())
        },
        None => Err(()),
    }
}

/// Relies on ring::pbkdf2::verify with PBKDF2_HMAC_SHA512: succeeds exactly
/// when the non-empty `derived` equals the key derived from the iteration
/// count, salt and secret (inputs too large for SHA-512 aside, which no slice
/// in memory reaches). A zero count cannot be given to it.
#[verifier::external_body]
fn pbkdf2_verify(iterations: u32, salt: &[u8; SALT_SIZE], secret: &[u8], derived: &[u8; CREDENTIAL_SIZE]) -> (r: Result<(), ()>)
    ensures
        (r is Ok) == (iterations != 0 && derived@ == pbkdf2_sha512(iterations, salt@, secret@, CREDENTIAL_SIZE as nat)),
{
    match NonZeroU32::new(iterations) {
        Some(n) => pbkdf2::verify(pbkdf2::PBKDF2_HMAC_SHA512, n, salt, secret, derived).map_err(|_| ()),
        None => Err(()),
    }
}

/// An account: its name, the random salt of its password and the key derived
/// from both.
#[derive(Debug, PartialEq)]
pub struct User {
    pub id: Option<String>,
    pub name: String,
    pub salt: [u8; SALT_SIZE],
    pub hash: [u8; CREDENTIAL_SIZE],
}

impl User {
    /// The stored credential for `password` with `salt`.
    pub open spec fn credential(salt: Seq<u8>, password: Seq<char>) -> Seq<u8> {
        pbkdf2_sha512(ITERATIONS, salt, encode_utf8(password), CREDENTIAL_SIZE as nat)
    }

    /// A new account with a fresh random salt; `Hashing` if the system gave
    /// no random bytes.
    pub fn hash(name: String, password: String) -> (r: Result<User, Error>)
        ensures
            r matches Ok(u) ==> u.id is None && u.name == name && u.hash@ == User::credential(u.salt@, password@),
            r is Err ==> r == Err::<User, Error>(Error::Hashing),
    {
        let mut salt = [0u8; SALT_SIZE];
        if fill_random(&mut salt).is_err() {
            return Err(Error::Hashing);
        }
        let mut hash = [0u8; CREDENTIAL_SIZE];
        match pbkdf2_derive(ITERATIONS, &salt, password.as_str().as_bytes(), &mut hash) {
            Ok(()) => Ok(User { id: None, name, salt, hash }),
            Err(()) => Err(Error::Hashing),
        }
    }

    /// Succeeds exactly when `password` is the account's password.
    pub fn verify(&self, password: String) -> (r: Result<(), Error>)
        ensures
            r is Ok <==> self.hash@ == User::credential(self.salt@, password@),
            r is Err ==> r == Err::<(), Error>(Error::WrongCredential),
    {
        match pbkdf2_verify(ITERATIONS, &self.salt, password.as_str().as_bytes(), &self.hash) {
            Ok(()) => Ok(()),
            Err(()) => Err(Error::WrongCredential),
        }
    }
}

/// The one account a query for an item's or a tag's uploader returned:
/// `UserNotFound` if the item was not found, `DatabaseError` unless exactly
/// one account came back.
pub fn single_user(users: Option<Vec<User>>) -> (r: Result<User, Error>)
    ensures
        users is None ==> r == Err::<User, Error>(Error::UserNotFound),
        users matches Some(v) ==> (v.len() != 1 ==> r == Err::<User, Error>(Error::DatabaseError)),
        users matches Some(v) ==> (v.len() == 1 ==> r == Ok::<User, Error>(v@[0])),
{
    match users {
        None => Err(Error::UserNotFound),
        Some(mut v) => {
            if v.len() != 1 {
                Err(Error::DatabaseError)
            } else {
                Ok(v.remove(0))
            }
        },
    }
}

} // verus!
