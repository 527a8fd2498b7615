//! The token issuer: mints signed access and refresh tokens and checks them.
//! It keeps no table of tokens: a token carries its own claims and expiry.
use vstd::prelude::*;
use crate::crypto::{hmac_sha256, hmac_sign, hmac_verify, random_bytes, HMAC_INPUT_LIMIT, TAG_LEN};
use crate::scope::{scope_within, scope_within_exec};
use crate::token::{
    decode, encode, HEADER_LEN, encode_claims, encodable, lemma_decode_encode, lemma_encode_decode,
    signed_token, validation, Claims, ClaimsModel, IssuerError, TokenKind,
};
use vstd::array::array_len_matches_n;

verus! {

/// `now + ttl`, saturating at the largest time.
pub open spec fn expiry(now: u64, ttl: u64) -> u64 {
    if now + ttl > u64::MAX {
        u64::MAX
    } else {
        (now + ttl) as u64
    }
}

/// The claims of a token of `kind` minted at `now` with lifetime `ttl`.
pub open spec fn minted(
    kind: TokenKind,
    sub: Seq<u8>,
    iss: Seq<u8>,
    scope: Seq<u8>,
    now: u64,
    ttl: u64,
    id: u64,
) -> ClaimsModel {
    ClaimsModel { kind, sub, iss, scope, issued_at: now, expires_at: expiry(now, ttl), token_id: id }
}

/// The token type of every access token.
pub const TOKEN_TYPE: &'static str = "bearer";

/// A token response: a bearer access token and possibly a refresh token.
#[derive(Debug)]
pub struct IssuedToken {
    pub access_token: Vec<u8>,
    pub refresh_token: Option<Vec<u8>>,
    /// Seconds until the access token expires.
    pub expires_in: u64,
    pub scope: Vec<u8>,
    pub client_id: Vec<u8>,
}

pub ghost struct IssuedTokenModel {
    pub access_token: Seq<u8>,
    pub refresh_token: Option<Seq<u8>>,
    pub expires_in: u64,
    pub scope: Seq<u8>,
    pub client_id: Seq<u8>,
}

impl View for IssuedToken {
    type V = IssuedTokenModel;

    open spec fn view(&self) -> IssuedTokenModel {
        IssuedTokenModel {
            access_token: self.access_token@,
            refresh_token: match self.refresh_token {
                Some(t) => Some(t@),
                None => None,
            },
            expires_in: self.expires_in,
            scope: self.scope@,
            client_id: self.client_id@,
        }
    }
}

/// Signs claims with a key held by the issuer alone.
pub struct TokenIssuer {
    key: Vec<u8>,
    issuer: Vec<u8>,
    access_ttl: u64,
    refresh_ttl: u64,
}

/// The token response that an issuer named `iss` with `key` and lifetimes `access_ttl`
/// and `refresh_ttl` gives; a refresh token comes with it when `refresh_ttl`
/// is not zero.
pub open spec fn response(
    key: Seq<u8>,
    iss: Seq<u8>,
    access_ttl: u64,
    refresh_ttl: u64,
    client_id: Seq<u8>,
    scope: Seq<u8>,
    now: u64,
    access_id: u64,
    refresh_id: u64,
) -> IssuedTokenModel {
    IssuedTokenModel {
        access_token: signed_token(
            key,
            minted(TokenKind::Access, client_id, iss, scope, now, access_ttl, access_id),
        ),
        refresh_token: if refresh_ttl == 0 {
            None
        } else {
            Some(
                signed_token(
                    key,
                    minted(TokenKind::Refresh, client_id, iss, scope, now, refresh_ttl, refresh_id),
                ),
            )
        },
        expires_in: (expiry(now, access_ttl) - now) as u64,
        scope,
        client_id,
    }
}

/// What refreshing with `token` for `requested` at `now` gives: a new access
/// token for the same client and the requested scope, without a new refresh
/// token.
pub open spec fn refresh_outcome(
    key: Seq<u8>,
    iss: Seq<u8>,
    access_ttl: u64,
    token: Seq<u8>,
    requested: Seq<u8>,
    now: u64,
    access_id: u64,
) -> Result<IssuedTokenModel, IssuerError> {
    match validation(key, token, now) {
        Err(e) => Err(e),
        Ok(c) => if c.kind != TokenKind::Refresh {
            Err(IssuerError::Malformed)
        } else if !scope_within(requested, c.scope) {
            Err(IssuerError::ScopeEscalation)
        } else {
            Ok(response(key, iss, access_ttl, 0, c.sub, requested, now, access_id, 0))
        },
    }
}

impl IssuedToken {
    /// The token type: bearer.
    pub fn token_type(&self) -> (r: &'static str)
        ensures
            r == TOKEN_TYPE,
    {
        TOKEN_TYPE
    }
}

impl TokenIssuer {
    pub closed spec fn key_view(&self) -> Seq<u8> {
        self.key@
    }

    /// The key is short enough to sign with.
    pub closed spec fn wf(&self) -> bool {
        self.key@.len() < HMAC_INPUT_LIMIT
    }

    pub closed spec fn issuer_view(&self) -> Seq<u8> {
        self.issuer@
    }

    pub closed spec fn access_ttl_view(&self) -> u64 {
        self.access_ttl
    }

    pub closed spec fn refresh_ttl_view(&self) -> u64 {
        self.refresh_ttl
    }

    /// An issuer named `issuer` signing with `key`; access tokens live `access_ttl` seconds,
    /// refresh tokens `refresh_ttl` seconds (none are issued when it is zero).
    pub fn new(key: Vec<u8>, issuer: Vec<u8>, access_ttl: u64, refresh_ttl: u64) -> (r: Self)
        requires
            key@.len() < HMAC_INPUT_LIMIT,
        ensures
            r.wf(),
            r.key_view() == key@,
            r.issuer_view() == issuer@,
            r.access_ttl_view() == access_ttl,
            r.refresh_ttl_view() == refresh_ttl,
    {
        TokenIssuer { key, issuer, access_ttl, refresh_ttl }
    }

    /// The issuer identity that this issuer's tokens carry.
    pub fn name(&self) -> (r: &[u8])
        ensures
            r@ == self.issuer_view(),
    {
        self.issuer.as_slice()
    }

    /// The signed token of a claim set.
    pub fn sign(&self, c: &Claims) -> (r: Vec<u8>)
        requires
            self.wf(),
            encodable(c@),
        ensures
            r@ == signed_token(self.key_view(), c@),
    {
        let mut out = encode(c);
        let tag = hmac_sign(self.key.as_slice(), out.as_slice());
        crate::token::push_all(&mut out, tag.as_slice());
        out
    }

    fn mint(&self, kind: TokenKind, sub: &[u8], scope: &[u8], now: u64, ttl: u64, id: u64) -> (r: Vec<u8>)
        requires
            self.wf(),
            HEADER_LEN + sub@.len() + self.issuer_view().len() + scope@.len() < HMAC_INPUT_LIMIT,
        ensures
            r@ == signed_token(self.key_view(), minted(kind, sub@, self.issuer_view(), scope@, now, ttl, id)),
    {
        let expires_at = now.saturating_add(ttl);
        let c = Claims {
            kind,
            sub: vstd::slice::slice_to_vec(sub),
            iss: vstd::slice::slice_to_vec(self.issuer.as_slice()),
            scope: vstd::slice::slice_to_vec(scope),
            issued_at: now,
            expires_at,
            token_id: id,
        };
        self.sign(&c)
    }

    /// Mints the tokens for `client_id` and `scope` at `now`, with the given
    /// token identifiers.
    pub fn issue(&self, client_id: &[u8], scope: &[u8], now: u64, access_id: u64, refresh_id: u64) -> (r: IssuedToken)
        requires
            self.wf(),
            HEADER_LEN + client_id@.len() + self.issuer_view().len() + scope@.len() < HMAC_INPUT_LIMIT,
        ensures
            r@ == response(
                self.key_view(),
                self.issuer_view(),
                self.access_ttl_view(),
                self.refresh_ttl_view(),
                client_id@,
                scope@,
                now,
                access_id,
                refresh_id,
            ),
    {
        let access_token = self.mint(TokenKind::Access, client_id, scope, now, self.access_ttl, access_id);
        let refresh_token = if self.refresh_ttl == 0 {
            None
        } else {
            Some(self.mint(TokenKind::Refresh, client_id, scope, now, self.refresh_ttl, refresh_id))
        };
        let expires_in = now.saturating_add(self.access_ttl) - now;
        IssuedToken {
            access_token,
            refresh_token,
            expires_in,
            scope: vstd::slice::slice_to_vec(scope),
            client_id: vstd::slice::slice_to_vec(client_id),
        }
    }

    /// Checks a token's tag and expiry, and returns its claims.
    pub fn validate(&self, token: &[u8], now: u64) -> (r: Result<Claims, IssuerError>)
        requires
            self.wf(),
        ensures
            match r {
                Ok(c) => validation(self.key_view(), token@, now) == Ok::<ClaimsModel, IssuerError>(c@),
                Err(e) => validation(self.key_view(), token@, now) == Err::<ClaimsModel, IssuerError>(e),
            },
    {
        if token.len() < TAG_LEN {
            return Err(IssuerError::Malformed);
        }
        let split = token.len() - TAG_LEN;
        let payload = vstd::slice::slice_subrange(token, 0, split);
        let tag = vstd::slice::slice_subrange(token, split, token.len());
        if split as u64 >= HMAC_INPUT_LIMIT {
            return Err(IssuerError::BadSignature);
        }
        if !hmac_verify(self.key.as_slice(), payload, tag) {
            return Err(IssuerError::BadSignature);
        }
        match decode(payload) {
            None => Err(IssuerError::Malformed),
            Some(c) => if now >= c.expires_at {
                Err(IssuerError::Expired)
            } else {
                Ok(c)
            },
        }
    }

    /// Exchanges a refresh token for a new access token with the requested
    /// scope, which may not exceed the scope the refresh token was granted.
    pub fn refresh(&self, token: &[u8], requested: &[u8], now: u64, access_id: u64) -> (r: Result<IssuedToken, IssuerError>)
        requires
            self.wf(),
            token@.len() + self.issuer_view().len() + requested@.len() < HMAC_INPUT_LIMIT,
        ensures
            match r {
                Ok(t) => refresh_outcome(self.key_view(), self.issuer_view(), self.access_ttl_view(), token@, requested@, now, access_id)
                    == Ok::<IssuedTokenModel, IssuerError>(t@),
                Err(e) => refresh_outcome(self.key_view(), self.issuer_view(), self.access_ttl_view(), token@, requested@, now, access_id)
                    == Err::<IssuedTokenModel, IssuerError>(e),
            },
    {
        let c = match self.validate(token, now) {
            Ok(c) => c,
            Err(e) => return Err(e),
        };
        if c.kind != TokenKind::Refresh {
            return Err(IssuerError::Malformed);
        }
        if !scope_within_exec(requested, c.scope.as_slice()) {
            return Err(IssuerError::ScopeEscalation);
        }
        let access_token = self.mint(TokenKind::Access, c.sub.as_slice(), requested, now, self.access_ttl, access_id);
        let expires_in = now.saturating_add(self.access_ttl) - now;
        Ok(IssuedToken {
            access_token,
            refresh_token: None,
            expires_in,
            scope: vstd::slice::slice_to_vec(requested),
            client_id: c.sub,
        })
    }
}

/// Eight random bytes read as a token identifier.
fn random_id() -> (r: Option<u64>) {
    match random_bytes(8) {
        Some(b) => Some(vstd::bytes::u64_from_le_bytes(b.as_slice())),
        None => None,
    }
}

impl TokenIssuer {
    /// Mints the tokens for `client_id` and `scope` at `now` with random token
    /// identifiers; nothing when the random source fails.
    pub fn issue_fresh(&self, client_id: &[u8], scope: &[u8], now: u64) -> (r: Option<IssuedToken>)
        requires
            self.wf(),
            HEADER_LEN + client_id@.len() + self.issuer_view().len() + scope@.len() < HMAC_INPUT_LIMIT,
        ensures
            r matches Some(t) ==> exists|a: u64, b: u64|
                #[trigger] response(
                    self.key_view(),
                    self.issuer_view(),
                    self.access_ttl_view(),
                    self.refresh_ttl_view(),
                    client_id@,
                    scope@,
                    now,
                    a,
                    b,
                ) == t@,
    {
        let a = match random_id() {
            Some(a) => a,
            None => return None,
        };
        let b = match random_id() {
            Some(b) => b,
            None => return None,
        };
        Some(self.issue(client_id, scope, now, a, b))
    }

    /// Refreshes with a random identifier for the new access token; nothing
    /// when the random source fails.
    pub fn refresh_fresh(&self, token: &[u8], requested: &[u8], now: u64) -> (r: Option<Result<IssuedToken, IssuerError>>)
        requires
            self.wf(),
            token@.len() + self.issuer_view().len() + requested@.len() < HMAC_INPUT_LIMIT,
        ensures
            r matches Some(o) ==> exists|a: u64|
                #[trigger] refresh_outcome(self.key_view(), self.issuer_view(), self.access_ttl_view(), token@, requested@, now, a)
                    == match o {
                    Ok(t) => Ok::<IssuedTokenModel, IssuerError>(t@),
                    Err(e) => Err::<IssuedTokenModel, IssuerError>(e),
                },
    {
        match random_id() {
            Some(a) => Some(self.refresh(token, requested, now, a)),
            None => None,
        }
    }
}

/// A signed token validates, giving back exactly its claims, at every time
/// before its expiry, and fails as expired from its expiry on.
pub proof fn lemma_signed_token_lifetime(key: Seq<u8>, c: ClaimsModel, now: u64)
    requires
        encodable(c),
    ensures
        now < c.expires_at ==> validation(key, signed_token(key, c), now) == Ok::<ClaimsModel, IssuerError>(c),
        now >= c.expires_at ==> validation(key, signed_token(key, c), now) == Err::<ClaimsModel, IssuerError>(
            IssuerError::Expired,
        ),
{
    let p = encode_claims(c);
    let h = hmac_sha256(key, p);
    array_len_matches_n(&h);
    lemma_decode_encode(c);
    let t = signed_token(key, c);
    assert(t.subrange(0, t.len() - TAG_LEN) =~= p);
    assert(t.subrange(t.len() - TAG_LEN, t.len() as int) =~= h@);
}

/// An access token from `issue` validates with the claims it was minted with
/// from its issue time until its expiry, `now + ttl`, and fails as expired
/// from then on.
pub proof fn lemma_issued_token_lifetime(
    issuer: TokenIssuer,
    client_id: Seq<u8>,
    scope: Seq<u8>,
    now: u64,
    access_id: u64,
    refresh_id: u64,
    later: u64,
)
    requires
        HEADER_LEN + client_id.len() + issuer.issuer_view().len() + scope.len() < HMAC_INPUT_LIMIT,
    ensures
        ({
            let key = issuer.key_view();
            let ttl = issuer.access_ttl_view();
            let tok = response(key, issuer.issuer_view(), ttl, issuer.refresh_ttl_view(), client_id, scope, now, access_id, refresh_id).access_token;
            &&& now <= later < expiry(now, ttl) ==> validation(key, tok, later) == Ok::<ClaimsModel, IssuerError>(
                minted(TokenKind::Access, client_id, issuer.issuer_view(), scope, now, ttl, access_id),
            )
            &&& later >= expiry(now, ttl) ==> validation(key, tok, later) == Err::<ClaimsModel, IssuerError>(
                IssuerError::Expired,
            )
        }),
{
    let c = minted(TokenKind::Access, client_id, issuer.issuer_view(), scope, now, issuer.access_ttl_view(), access_id);
    lemma_signed_token_lifetime(issuer.key_view(), c, later);
}

/// Claims are accepted only from a token that is exactly their signed
/// encoding: nothing in an accepted token is left unchecked.
pub proof fn lemma_accepted_token_is_signed(key: Seq<u8>, token: Seq<u8>, now: u64)
    ensures
        validation(key, token, now) matches Ok(c) ==> token == signed_token(key, c) && now < c.expires_at,
{
    if let Ok(c) = validation(key, token, now) {
        let p = token.subrange(0, token.len() - TAG_LEN);
        lemma_encode_decode(p);
        assert(token =~= signed_token(key, c));
    }
}

/// Changing one byte of a signed token makes validation fail with a bad
/// signature, unless the changed payload has the same HMAC tag as the
/// unchanged one (a collision of HMAC-SHA256); a change in the tag itself
/// always fails.
pub proof fn lemma_tampered_token(key: Seq<u8>, c: ClaimsModel, i: int, b: u8, now: u64)
    requires
        encodable(c),
        0 <= i < signed_token(key, c).len(),
        b != signed_token(key, c)[i],
    ensures
        ({
            let t = signed_token(key, c);
            let p = encode_claims(c);
            let tampered = t.update(i, b);
            &&& i >= p.len() ==> validation(key, tampered, now) == Err::<ClaimsModel, IssuerError>(IssuerError::BadSignature)
            &&& validation(key, tampered, now) == Err::<ClaimsModel, IssuerError>(IssuerError::BadSignature)
                || hmac_sha256(key, p.update(i, b)) == hmac_sha256(key, p)
        }),
{
    let t = signed_token(key, c);
    let p = encode_claims(c);
    let h = hmac_sha256(key, p);
    array_len_matches_n(&h);
    let tampered = t.update(i, b);
    let tp = tampered.subrange(0, tampered.len() - TAG_LEN);
    let tt = tampered.subrange(tampered.len() - TAG_LEN, tampered.len() as int);
    if i >= p.len() {
        assert(tp =~= p);
        assert(tt[i - p.len()] != h@[i - p.len()]);
    } else {
        assert(tp =~= p.update(i, b));
        assert(tt =~= h@);
    }
}

/// With a valid refresh token, a refresh fails with a scope escalation
/// exactly when the requested scope has a token that the refresh token was not
/// granted; an equal or narrower scope gets a new access token.
pub proof fn lemma_refresh_scope(
    issuer: TokenIssuer,
    client_id: Seq<u8>,
    granted: Seq<u8>,
    issued_at: u64,
    refresh_id: u64,
    requested: Seq<u8>,
    now: u64,
    access_id: u64,
)
    requires
        HEADER_LEN + client_id.len() + issuer.issuer_view().len() + granted.len() < HMAC_INPUT_LIMIT,
        now < expiry(issued_at, issuer.refresh_ttl_view()),
    ensures
        ({
            let key = issuer.key_view();
            let rt = signed_token(
                key,
                minted(TokenKind::Refresh, client_id, issuer.issuer_view(), granted, issued_at, issuer.refresh_ttl_view(), refresh_id),
            );
            let out = refresh_outcome(key, issuer.issuer_view(), issuer.access_ttl_view(), rt, requested, now, access_id);
            &&& !scope_within(requested, granted) ==> out == Err::<IssuedTokenModel, IssuerError>(
                IssuerError::ScopeEscalation,
            )
            &&& scope_within(requested, granted) ==> out == Ok::<IssuedTokenModel, IssuerError>(
                response(key, issuer.issuer_view(), issuer.access_ttl_view(), 0, client_id, requested, now, access_id, 0),
            )
        }),
{
    let c = minted(TokenKind::Refresh, client_id, issuer.issuer_view(), granted, issued_at, issuer.refresh_ttl_view(), refresh_id);
    lemma_signed_token_lifetime(issuer.key_view(), c, now);
}

} // verus!
