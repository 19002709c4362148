//! One-way, salted, memory-hard password hashing (Argon2id).
use argon2::password_hash::SaltString;
use rand::RngCore;
use argon2::{Algorithm, Argon2, Params, PasswordHasher, PasswordVerifier, Version};
use vstd::prelude::*;
use vstd::utf8::encode_utf8;
use crate::password::Password;
use crate::token::decimal;

verus! {

#[verifier::external_type_specification]
#[verifier::external_body]
pub struct ExPasswordHashError(argon2::password_hash::Error);

/// Memory cost of a hash, in KiB.
pub const MEMORY_COST_KIB: u32 = 15000;

/// Passes over memory of a hash.
pub const ITERATIONS: u32 = 2;

/// Degree of parallelism of a hash.
pub const PARALLELISM: u32 = 1;

/// Whether Argon2 accepts `candidate` against the PHC string `hash`: the
/// string parses, and hashing `candidate` under the algorithm, version,
/// parameters and salt that it records gives its digest.
pub uninterp spec fn argon2_accepts(hash: Seq<char>, candidate: Seq<char>) -> bool;

/// Relies on `argon2::PasswordHash::new` and `PasswordVerifier::verify_password`
/// of `argon2::Argon2`: `Ok` exactly when Argon2 accepts `candidate` against `hash`.
#[verifier::external_body]
fn argon2_verify(hash: &str, candidate: &str) -> (r: Result<(), argon2::password_hash::Error>)
    ensures
        r is Ok <==> argon2_accepts(hash@, candidate@),
{
    match argon2::PasswordHash::new(hash) {
        Ok(parsed) => Argon2::default().verify_password(candidate.as_bytes(), &parsed),
        Err(e) => Err(e),
    }
}

/// The start of the PHC string of an Argon2id (version 0x13) hash with the
/// costs `m`, `t`, `p`: `$argon2id$v=19$m=<m>,t=<t>,p=<p>$`.
pub open spec fn phc_prefix(m: u32, t: u32, p: u32) -> Seq<char> {
    seq!['$', 'a', 'r', 'g', 'o', 'n', '2', 'i', 'd', '$', 'v', '=', '1', '9', '$', 'm', '=']
        + decimal(m as nat) + seq![',', 't', '='] + decimal(t as nat) + seq![',', 'p', '=']
        + decimal(p as nat) + seq!['$']
}

/// Bytes of salt drawn for each hash.
pub const SALT_BYTES: usize = 16;

/// The unpadded B64 text (`[A-Za-z0-9+/]`) of `bytes`, as a PHC string holds a salt.
pub uninterp spec fn b64_text(bytes: Seq<u8>) -> Seq<char>;

/// A character of the B64 alphabet.
pub open spec fn is_b64_char(c: char) -> bool {
    ('a' <= c && c <= 'z') || ('A' <= c && c <= 'Z') || ('0' <= c && c <= '9') || c == '+' || c
        == '/'
}

pub open spec fn all_b64(s: Seq<char>) -> bool {
    forall|i: int| 0 <= i < s.len() ==> is_b64_char(#[trigger] s[i])
}

/// The PHC string of an Argon2id hash with costs `m`, `t`, `p`, a 16-byte
/// salt and a 32-byte digest: the prefix, 22 B64 characters of salt, `$`,
/// and 43 B64 characters of digest.
pub open spec fn phc_layout(h: Seq<char>, m: u32, t: u32, p: u32) -> bool {
    let pre = phc_prefix(m, t, p);
    let n = pre.len() as int;
    &&& h.len() == n + 66
    &&& h.subrange(0, n) == pre
    &&& all_b64(h.subrange(n, n + 22))
    &&& h[n + 22] == '$'
    &&& all_b64(h.subrange(n + 23, n + 66))
}

/// Whether the salt part of the PHC string `h` (costs `m`, `t`, `p`) is the
/// B64 text of `salt`.
pub open spec fn records_salt(h: Seq<char>, salt: Seq<u8>, m: u32, t: u32, p: u32) -> bool {
    let n = phc_prefix(m, t, p).len() as int;
    h.len() >= n + 22 && h.subrange(n, n + 22) == b64_text(salt)
}

/// Relies on `RngCore::fill_bytes` of `rand::thread_rng()`: `n` random bytes.
#[verifier::external_body]
fn random_bytes(n: usize) -> (r: Vec<u8>)
    ensures
        r@.len() == n,
{
    let mut bytes = vec![0u8; n];
    rand::thread_rng().fill_bytes(&mut bytes);
    bytes
}

/// Relies on `SaltString::encode_b64` and `PasswordHasher::hash_password` of
/// `argon2::Argon2` (Argon2id, version 0x13, the given costs). `Params::new`
/// accepts the costs that `requires` admits, and a 16-byte salt encodes to 22
/// characters; hashing then fails only for a password over `0xFFFFFFFF` bytes.
/// The PHC string it returns (`PasswordHash`'s `Display`) is the prefix, the
/// salt's B64 text, `$` and the B64 text of the 32-byte digest; distinct salts
/// have distinct B64 texts; verification with the same password recomputes
/// the same digest.
#[verifier::external_body]
fn argon2_hash(
    password: &str,
    salt: &[u8],
    memory_kib: u32,
    iterations: u32,
    parallelism: u32,
) -> (r: Result<String, argon2::password_hash::Error>)
    requires
        salt@.len() == 16,
        1 <= parallelism <= 0xFFFFFF,
        8 <= memory_kib,
        8 * parallelism <= memory_kib,
        1 <= iterations,
    ensures
        encode_utf8(password@).len() <= 0xFFFFFFFF ==> r is Ok,
        r matches Ok(h) ==> argon2_accepts(h@, password@),
        r matches Ok(h) ==> phc_layout(h@, memory_kib, iterations, parallelism),
        r matches Ok(h) ==> h@.subrange(
            phc_prefix(memory_kib, iterations, parallelism).len() as int,
            phc_prefix(memory_kib, iterations, parallelism).len() + 22 as int,
        ) == b64_text(salt@),
        r matches Ok(h) ==> forall|other: Seq<u8>|
            other.len() == 16 && other != salt@ ==> h@.subrange(
                phc_prefix(memory_kib, iterations, parallelism).len() as int,
                phc_prefix(memory_kib, iterations, parallelism).len() + 22 as int,
            ) != #[trigger] b64_text(other),
{
    let salt = SaltString::encode_b64(salt)?;
    let params = Params::new(memory_kib, iterations, parallelism, None)?;
    let hasher = Argon2::new(Algorithm::Argon2id, Version::V0x13, params);
    match hasher.hash_password(password.as_bytes(), &salt) {
        Ok(h) => Ok(h.to_string()),
        Err(e) => Err(e),
    }
}

/// Hashing failed inside the hasher.
#[derive(Debug, Clone, Copy, PartialEq, Eq, Structural)]
pub struct HashingError;

/// The candidate does not match the hash, or the hash is malformed: the two
/// are not told apart.
#[derive(Debug, Clone, Copy, PartialEq, Eq, Structural)]
pub struct PasswordMismatch;

/// An encoded hash (algorithm, parameters, salt and digest) as stored at rest.
#[derive(Debug)]
pub struct PasswordHash {
    phc: String,
}

impl View for PasswordHash {
    type V = Seq<char>;

    closed spec fn view(&self) -> Seq<char> {
        self.phc@
    }
}

impl PasswordHash {
    /// A hash read back from storage.
    pub fn from_stored(phc: String) -> (r: PasswordHash)
        ensures
            r@ == phc@,
    {
        PasswordHash { phc }
    }

    /// The encoded hash.
    pub fn as_str(&self) -> (r: &str)
        ensures
            r@ == self@,
    {
        self.phc.as_str()
    }
}

impl Clone for PasswordHash {
    fn clone(&self) -> (r: Self)
        ensures
            r@ == self@,
    {
        PasswordHash { phc: self.phc.clone() }
    }
}

/// Whether a password fits the hasher (at most `0xFFFFFFFF` bytes).
pub open spec fn hashable(password: Seq<char>) -> bool {
    encode_utf8(password).len() <= 0xFFFFFFFF
}

/// An Argon2id hash with the fixed cost profile, laid out as a PHC string.
pub open spec fn fixed_cost_phc(h: Seq<char>) -> bool {
    phc_layout(h, MEMORY_COST_KIB, ITERATIONS, PARALLELISM)
}

/// The PHC string `h` records `salt` and no other 16-byte salt.
pub open spec fn salt_recorded(h: Seq<char>, salt: Seq<u8>) -> bool {
    &&& records_salt(h, salt, MEMORY_COST_KIB, ITERATIONS, PARALLELISM)
    &&& forall|other: Seq<u8>|
        other.len() == SALT_BYTES && other != salt ==> !#[trigger] records_salt(
            h,
            other,
            MEMORY_COST_KIB,
            ITERATIONS,
            PARALLELISM,
        )
}

/// A fresh random salt for one hash.
pub fn fresh_salt() -> (r: Vec<u8>)
    ensures
        r@.len() == SALT_BYTES,
{
    random_bytes(SALT_BYTES)
}

/// Hashes `password` under `salt` (`SALT_BYTES` random bytes, fresh for each
/// hash) with the fixed cost profile. Verification of the result with the
/// same password succeeds, and the result records the salt.
pub fn hash_password(password: &Password, salt: &[u8]) -> (r: Result<PasswordHash, HashingError>)
    ensures
        hashable(password@) && salt@.len() == SALT_BYTES ==> r is Ok,
        r matches Ok(h) ==> argon2_accepts(h@, password@),
        r matches Ok(h) ==> fixed_cost_phc(h@),
        r matches Ok(h) ==> salt_recorded(h@, salt@),
{
    if salt.len() != SALT_BYTES {
        return Err(HashingError);
    }
    match argon2_hash(password.expose_secret(), salt, MEMORY_COST_KIB, ITERATIONS, PARALLELISM) {
        Ok(phc) => Ok(PasswordHash { phc }),
        Err(_) => Err(HashingError),
    }
}

/// Two hashes made under different salts differ.
pub proof fn lemma_distinct_salts_distinct_hashes(
    h1: Seq<char>,
    s1: Seq<u8>,
    h2: Seq<char>,
    s2: Seq<u8>,
)
    requires
        salt_recorded(h1, s1),
        salt_recorded(h2, s2),
        s1.len() == SALT_BYTES,
        s1 != s2,
    ensures
        h1 != h2,
{
    if h1 == h2 {
        assert(records_salt(h2, s1, MEMORY_COST_KIB, ITERATIONS, PARALLELISM));
    }
}

/// Checks `candidate` against `hash`.
pub fn verify_password(hash: &PasswordHash, candidate: &str) -> (r: Result<(), PasswordMismatch>)
    ensures
        r is Ok <==> argon2_accepts(hash@, candidate@),
{
    match argon2_verify(hash.as_str(), candidate) {
        Ok(()) => Ok(()),
        Err(_) => Err(PasswordMismatch),
    }
}

} // verus!
