//! The revocation store: banned session tokens, each until its own expiry.
use vstd::prelude::*;
use vstd::hash_map::StringHashMap;
use crate::errors::BannedTokenStoreError;

verus! {

/// Whether `token` stands banned at time `now` in `m` (token to expiry, in
/// seconds since the Unix epoch). An entry past the expiry of its token is
/// gone, as if the store had dropped it.
pub open spec fn banned_at(m: Map<Seq<char>, u64>, token: Seq<char>, now: u64) -> bool {
    m.contains_key(token) && now <= m[token]
}

/// What banning `token` (which expires at `expires_at`) unless it already stands
/// banned does to `m` at time `now`, and whether it was newly banned.
pub open spec fn ban_if_absent(m: Map<Seq<char>, u64>, token: Seq<char>, expires_at: u64, now: u64) -> (
    Map<Seq<char>, u64>,
    bool,
) {
    if banned_at(m, token, now) {
        (m, false)
    } else {
        (m.insert(token, expires_at), true)
    }
}

/// A medium that keeps banned tokens. A failed operation changes nothing.
pub trait BannedTokenStore {
    /// Each banned token with the expiry of the token itself.
    spec fn banned(&self) -> Map<Seq<char>, u64>;

    /// The medium never fails (memory, for one).
    spec fn infallible(&self) -> bool;

    /// Bans `token` until `expires_at`, the expiry of the token itself.
    fn add_banned_token(&mut self, token: &str, expires_at: u64) -> (r: Result<
        (),
        BannedTokenStoreError,
    >)
        ensures
            final(self).infallible() == old(self).infallible(),
            old(self).infallible() ==> r is Ok,
            r is Ok ==> final(self).banned() == old(self).banned().insert(token@, expires_at),
            r is Err ==> final(self).banned() == old(self).banned(),
    ;

    /// Whether `token` stands banned at time `now`.
    fn is_token_banned(&self, token: &str, now: u64) -> (r: Result<bool, BannedTokenStoreError>)
        ensures
            self.infallible() ==> r is Ok,
            r matches Ok(b) ==> b == banned_at(self.banned(), token@, now),
    ;

    /// Bans `token` unless it already stands banned; `true` when it was newly
    /// banned. Check and insert are one step: of two calls for one token only
    /// the first reports a new ban.
    fn ban_if_not_present(&mut self, token: &str, expires_at: u64, now: u64) -> (r: Result<
        bool,
        BannedTokenStoreError,
    >)
        ensures
            final(self).infallible() == old(self).infallible(),
            old(self).infallible() ==> r is Ok,
            r matches Ok(newly) ==> (final(self).banned(), newly) == ban_if_absent(
                old(self).banned(),
                token@,
                expires_at,
                now,
            ),
            r is Err ==> final(self).banned() == old(self).banned(),
    ;
}

/// Banned tokens kept in memory; its operations do not fail.
pub struct HashsetBannedTokenStore {
    tokens: StringHashMap<u64>,
}

impl View for HashsetBannedTokenStore {
    type V = Map<Seq<char>, u64>;

    closed spec fn view(&self) -> Map<Seq<char>, u64> {
        self.tokens@
    }
}

impl HashsetBannedTokenStore {
    pub fn new() -> (r: HashsetBannedTokenStore)
        ensures
            r@ == Map::<Seq<char>, u64>::empty(),
    {
        HashsetBannedTokenStore { tokens: StringHashMap::new() }
    }
}

impl BannedTokenStore for HashsetBannedTokenStore {
    open spec fn banned(&self) -> Map<Seq<char>, u64> {
        self@
    }

    open spec fn infallible(&self) -> bool {
        true
    }

    fn add_banned_token(&mut self, token: &str, expires_at: u64) -> (r: Result<
        (),
        BannedTokenStoreError,
    >) {
        self.tokens.insert(token.to_owned(), expires_at);
        Ok(())
    }

    fn is_token_banned(&self, token: &str, now: u64) -> (r: Result<bool, BannedTokenStoreError>) {
        match self.tokens.get(token) {
            Some(expires_at) => Ok(now <= *expires_at),
            None => Ok(false),
        }
    }

    fn ban_if_not_present(&mut self, token: &str, expires_at: u64, now: u64) -> (r: Result<
        bool,
        BannedTokenStoreError,
    >) {
        match self.tokens.get(token) {
            Some(e) => {
                if now <= *e {
                    return Ok(false);
                }
            },
            None => {},
        }
        self.tokens.insert(token.to_owned(), expires_at);
        Ok(true)
    }
}

impl Default for HashsetBannedTokenStore {
    fn default() -> (r: Self)
        ensures
            r@ == Map::<Seq<char>, u64>::empty(),
    {
        HashsetBannedTokenStore::new()
    }
}

/// Of two bans of one token at one time, on a store where it does not stand
/// banned, exactly the first reports a new ban, the second reports that it was
/// already banned, and afterwards the token stands banned.
pub proof fn lemma_ban_twice(m: Map<Seq<char>, u64>, token: Seq<char>, expires_at: u64, now: u64)
    requires
        !banned_at(m, token, now),
        now <= expires_at,
    ensures
        ({
            let (m1, first) = ban_if_absent(m, token, expires_at, now);
            let (m2, second) = ban_if_absent(m1, token, expires_at, now);
            first && !second && banned_at(m2, token, now)
        }),
{
}

pub open spec fn banned_key_prefix() -> Seq<char> {
    seq!['b', 'a', 'n', 'n', 'e', 'd', '_', 't', 'o', 'k', 'e', 'n', ':']
}

/// The key under which a key-value medium keeps the ban of `token`; the prefix
/// keeps bans apart from other entries of the medium.
pub fn get_key(token: &str) -> (r: String)
    ensures
        r@ == banned_key_prefix() + token@,
{
    let mut key = "banned_token:".to_owned();
    key.append(token);
    proof {
        reveal_strlit("banned_token:");
        assert("banned_token:"@ =~= banned_key_prefix());
    }
    key
}

} // verus!
