//! The authorization-code store: random single-use codes bound to a client,
//! a redirect URI and a scope, each with an expiry.
use vstd::prelude::*;
use std::collections::HashMap;
use crate::crypto::random_bytes;
use crate::issuer::expiry;

verus! {

broadcast use vstd::std_specs::hash::group_hash_axioms;

/// Number of random bytes in a code.
pub const CODE_BYTES: usize = 16;

/// How many fresh codes `issue` draws before it gives up on collisions.
pub const ISSUE_ATTEMPTS: u32 = 4;

#[derive(Clone, Copy, Debug, PartialEq, Eq, Structural)]
pub enum AuthorizerError {
    UnknownCode,
    Expired,
    AlreadyConsumed,
}

/// What an authorization code stands for.
#[derive(Debug)]
pub struct Grant {
    pub client_id: String,
    pub redirect_uri: String,
    pub scope: String,
    pub issued_at: u64,
    pub expires_at: u64,
}

pub ghost struct GrantModel {
    pub client_id: Seq<char>,
    pub redirect_uri: Seq<char>,
    pub scope: Seq<char>,
    pub issued_at: u64,
    pub expires_at: u64,
}

impl View for Grant {
    type V = GrantModel;

    open spec fn view(&self) -> GrantModel {
        GrantModel {
            client_id: self.client_id@,
            redirect_uri: self.redirect_uri@,
            scope: self.scope@,
            issued_at: self.issued_at,
            expires_at: self.expires_at,
        }
    }
}

impl Grant {
    /// A copy of this grant.
    pub fn duplicate(&self) -> (r: Grant)
        ensures
            r@ == self@,
    {
        Grant {
            client_id: self.client_id.clone(),
            redirect_uri: self.redirect_uri.clone(),
            scope: self.scope.clone(),
            issued_at: self.issued_at,
            expires_at: self.expires_at,
        }
    }
}

/// A code's grant and whether the code was consumed.
#[derive(Debug)]
pub struct CodeRecord {
    pub grant: Grant,
    pub spent: bool,
}

pub ghost struct CodeEntry {
    pub grant: GrantModel,
    pub spent: bool,
}

/// The codes a store holds, by code.
pub type Codes = Map<u128, CodeEntry>;

/// What consuming `code` at `now` does to the codes `m`: the codes after it,
/// and the grant or the error.
pub open spec fn consume_outcome(m: Codes, code: u128, now: u64) -> (Codes, Result<GrantModel, AuthorizerError>) {
    if !m.contains_key(code) {
        (m, Err(AuthorizerError::UnknownCode))
    } else if now >= m[code].grant.expires_at {
        (m.remove(code), Err(AuthorizerError::Expired))
    } else if m[code].spent {
        (m, Err(AuthorizerError::AlreadyConsumed))
    } else {
        (m.insert(code, CodeEntry { grant: m[code].grant, spent: true }), Ok(m[code].grant))
    }
}

/// The unspent entry of a code issued at `now` for a lifetime of `lifetime`.
pub open spec fn fresh_entry(
    client_id: Seq<char>,
    redirect_uri: Seq<char>,
    scope: Seq<char>,
    now: u64,
    lifetime: u64,
) -> CodeEntry {
    CodeEntry {
        grant: GrantModel { client_id, redirect_uri, scope, issued_at: now, expires_at: expiry(now, lifetime) },
        spent: false,
    }
}

pub struct CodeStore {
    records: HashMap<u128, CodeRecord>,
    lifetime: u64,
}

impl CodeStore {
    pub closed spec fn codes(&self) -> Codes {
        self.records@.map_values(|r: CodeRecord| CodeEntry { grant: r.grant@, spent: r.spent })
    }

    pub closed spec fn lifetime_view(&self) -> u64 {
        self.lifetime
    }

    /// An empty store whose codes live `lifetime` seconds.
    pub fn new(lifetime: u64) -> (r: Self)
        ensures
            r.codes() == Map::<u128, CodeEntry>::empty(),
            r.lifetime_view() == lifetime,
    {
        let r = CodeStore { records: HashMap::new(), lifetime };
        assert(r.codes() =~= Map::<u128, CodeEntry>::empty());
        r
    }

    /// Whether `code` is held.
    pub fn contains(&self, code: u128) -> (r: bool)
        ensures
            r == self.codes().contains_key(code),
    {
        self.records.contains_key(&code)
    }

    /// Records `code` for the grant, unless the store holds it already.
    pub fn issue_with_code(
        &mut self,
        code: u128,
        client_id: String,
        redirect_uri: String,
        scope: String,
        now: u64,
    ) -> (r: bool)
        ensures
            r == !old(self).codes().contains_key(code),
            final(self).lifetime_view() == old(self).lifetime_view(),
            r ==> final(self).codes() == old(self).codes().insert(
                code,
                fresh_entry(client_id@, redirect_uri@, scope@, now, old(self).lifetime_view()),
            ),
            !r ==> final(self).codes() == old(self).codes(),
    {
        if self.records.contains_key(&code) {
            return false;
        }
        let expires_at = now.saturating_add(self.lifetime);
        let grant = Grant { client_id, redirect_uri, scope, issued_at: now, expires_at };
        self.records.insert(code, CodeRecord { grant, spent: false });
        assert(self.codes() =~= old(self).codes().insert(
            code,
            fresh_entry(client_id@, redirect_uri@, scope@, now, old(self).lifetime_view()),
        ));
        true
    }

    /// Issues a new random code for the grant; nothing when the random source
    /// fails or keeps giving codes the store already holds.
    pub fn issue(&mut self, client_id: String, redirect_uri: String, scope: String, now: u64) -> (r: Option<u128>)
        ensures
            final(self).lifetime_view() == old(self).lifetime_view(),
            match r {
                Some(code) => !old(self).codes().contains_key(code) && final(self).codes()
                    == old(self).codes().insert(
                    code,
                    fresh_entry(client_id@, redirect_uri@, scope@, now, old(self).lifetime_view()),
                ),
                None => final(self).codes() == old(self).codes(),
            },
    {
        let mut attempt: u32 = 0;
        while attempt < ISSUE_ATTEMPTS
            invariant
                self.codes() == old(self).codes(),
                self.lifetime_view() == old(self).lifetime_view(),
            decreases ISSUE_ATTEMPTS - attempt,
        {
            let bytes = match random_bytes(CODE_BYTES) {
                Some(b) => b,
                None => return None,
            };
            let code = vstd::bytes::u128_from_le_bytes(bytes.as_slice());
            if !self.records.contains_key(&code) {
                self.issue_with_code(code, client_id, redirect_uri, scope, now);
                return Some(code);
            }
            attempt = attempt + 1;
        }
        None
    }

    /// Consumes `code` at `now`: its grant the first time, before its expiry;
    /// an expired code is dropped.
    pub fn consume(&mut self, code: u128, now: u64) -> (r: Result<Grant, AuthorizerError>)
        ensures
            final(self).lifetime_view() == old(self).lifetime_view(),
            final(self).codes() == consume_outcome(old(self).codes(), code, now).0,
            match r {
                Ok(g) => consume_outcome(old(self).codes(), code, now).1 == Ok::<GrantModel, AuthorizerError>(g@),
                Err(e) => consume_outcome(old(self).codes(), code, now).1 == Err::<GrantModel, AuthorizerError>(e),
            },
    {
        let rec = match self.records.remove(&code) {
            None => {
                assert(self.codes() =~= old(self).codes());
                return Err(AuthorizerError::UnknownCode);
            },
            Some(rec) => rec,
        };
        if now >= rec.grant.expires_at {
            assert(self.codes() =~= old(self).codes().remove(code));
            return Err(AuthorizerError::Expired);
        }
        if rec.spent {
            self.records.insert(code, rec);
            assert(self.codes() =~= old(self).codes());
            return Err(AuthorizerError::AlreadyConsumed);
        }
        let g = rec.grant.duplicate();
        self.records.insert(code, CodeRecord { grant: rec.grant, spent: true });
        assert(self.codes() =~= consume_outcome(old(self).codes(), code, now).0);
        Ok(g)
    }
}

/// A code is single-use: after it is issued, the first consume before its
/// expiry gives its grant, and a second consume, at any time, fails, with
/// `AlreadyConsumed` before the expiry.
pub proof fn lemma_code_single_use(m: Codes, code: u128, entry: CodeEntry, first: u64, second: u64)
    requires
        !entry.spent,
        first < entry.grant.expires_at,
    ensures
        ({
            let (m1, r1) = consume_outcome(m.insert(code, entry), code, first);
            let (m2, r2) = consume_outcome(m1, code, second);
            &&& r1 == Ok::<GrantModel, AuthorizerError>(entry.grant)
            &&& r2 is Err
            &&& second < entry.grant.expires_at ==> r2 == Err::<GrantModel, AuthorizerError>(
                AuthorizerError::AlreadyConsumed,
            )
        }),
{
}

/// A code whose expiry has passed fails as expired, consumed before or not,
/// and is dropped.
pub proof fn lemma_expired_code(m: Codes, code: u128, now: u64)
    requires
        m.contains_key(code),
        now >= m[code].grant.expires_at,
    ensures
        consume_outcome(m, code, now) == (m.remove(code), Err::<GrantModel, AuthorizerError>(AuthorizerError::Expired)),
{
}

} // verus!
