//! Stateless signed tokens: a claim set encoded as bytes and followed by its
//! HMAC-SHA256 tag under the issuer's key.
use vstd::prelude::*;
use vstd::bytes::*;
use crate::crypto::{hmac_sha256, HMAC_INPUT_LIMIT, TAG_LEN};

verus! {

/// Length of the fixed part of an encoded claim set: kind, issued-at,
/// expiry, token id, and the lengths of subject and issuer.
pub const HEADER_LEN: usize = 41;

#[derive(Clone, Copy, Debug, PartialEq, Eq, Structural)]
pub enum TokenKind {
    Access,
    Refresh,
}

#[derive(Clone, Copy, Debug, PartialEq, Eq, Structural)]
pub enum IssuerError {
    BadSignature,
    Expired,
    Malformed,
    ScopeEscalation,
}

/// The verified content of a token.
#[derive(Debug)]
pub struct Claims {
    pub kind: TokenKind,
    /// The client the token was issued to.
    pub sub: Vec<u8>,
    /// The issuer that minted the token.
    pub iss: Vec<u8>,
    /// Space-separated scope tokens.
    pub scope: Vec<u8>,
    pub issued_at: u64,
    pub expires_at: u64,
    /// Random identifier of this token.
    pub token_id: u64,
}

pub ghost struct ClaimsModel {
    pub kind: TokenKind,
    pub sub: Seq<u8>,
    pub iss: Seq<u8>,
    pub scope: Seq<u8>,
    pub issued_at: u64,
    pub expires_at: u64,
    pub token_id: u64,
}

impl View for Claims {
    type V = ClaimsModel;

    open spec fn view(&self) -> ClaimsModel {
        ClaimsModel {
            kind: self.kind,
            sub: self.sub@,
            iss: self.iss@,
            scope: self.scope@,
            issued_at: self.issued_at,
            expires_at: self.expires_at,
            token_id: self.token_id,
        }
    }
}

pub open spec fn kind_byte(k: TokenKind) -> u8 {
    match k {
        TokenKind::Access => 0,
        TokenKind::Refresh => 1,
    }
}

pub open spec fn kind_of_byte(b: u8) -> Option<TokenKind> {
    if b == 0 {
        Some(TokenKind::Access)
    } else if b == 1 {
        Some(TokenKind::Refresh)
    } else {
        None
    }
}

/// A claim set can be encoded and signed when its encoding stays below the
/// HMAC input limit.
pub open spec fn encodable(c: ClaimsModel) -> bool {
    HEADER_LEN + c.sub.len() + c.iss.len() + c.scope.len() < HMAC_INPUT_LIMIT
}

/// The byte encoding of a claim set.
pub open spec fn encode_claims(c: ClaimsModel) -> Seq<u8> {
    seq![kind_byte(c.kind)] + spec_u64_to_le_bytes(c.issued_at) + spec_u64_to_le_bytes(
        c.expires_at,
    ) + spec_u64_to_le_bytes(c.token_id) + spec_u64_to_le_bytes(c.sub.len() as u64)
        + spec_u64_to_le_bytes(c.iss.len() as u64) + c.sub + c.iss + c.scope
}

/// The claim set that a byte string encodes, if any.
pub open spec fn decode_claims(b: Seq<u8>) -> Option<ClaimsModel> {
    if b.len() < HEADER_LEN {
        None
    } else {
        let n = spec_u64_from_le_bytes(b.subrange(25, 33));
        let m = spec_u64_from_le_bytes(b.subrange(33, 41));
        match kind_of_byte(b[0]) {
            None => None,
            Some(kind) => if n > b.len() - HEADER_LEN || m > b.len() - HEADER_LEN - n {
                None
            } else {
                Some(
                    ClaimsModel {
                        kind,
                        issued_at: spec_u64_from_le_bytes(b.subrange(1, 9)),
                        expires_at: spec_u64_from_le_bytes(b.subrange(9, 17)),
                        token_id: spec_u64_from_le_bytes(b.subrange(17, 25)),
                        sub: b.subrange(41, 41 + n),
                        iss: b.subrange(41 + n, 41 + n + m),
                        scope: b.subrange(41 + n + m, b.len() as int),
                    },
                )
            },
        }
    }
}

/// A token: the encoded claims followed by their tag under `key`.
pub open spec fn signed_token(key: Seq<u8>, c: ClaimsModel) -> Seq<u8> {
    encode_claims(c) + hmac_sha256(key, encode_claims(c))@
}

/// What validating `token` under `key` at time `now` gives.
pub open spec fn validation(key: Seq<u8>, token: Seq<u8>, now: u64) -> Result<
    ClaimsModel,
    IssuerError,
> {
    if token.len() < TAG_LEN {
        Err(IssuerError::Malformed)
    } else {
        let payload = token.subrange(0, token.len() - TAG_LEN);
        let tag = token.subrange(token.len() - TAG_LEN, token.len() as int);
        if payload.len() >= HMAC_INPUT_LIMIT || tag != hmac_sha256(key, payload)@ {
            Err(IssuerError::BadSignature)
        } else {
            match decode_claims(payload) {
                None => Err(IssuerError::Malformed),
                Some(c) => if now >= c.expires_at {
                    Err(IssuerError::Expired)
                } else {
                    Ok(c)
                },
            }
        }
    }
}

/// Decoding an encoded claim set gives it back.
pub proof fn lemma_decode_encode(c: ClaimsModel)
    requires
        encodable(c),
    ensures
        decode_claims(encode_claims(c)) == Some(c),
{
    lemma_auto_spec_u64_to_from_le_bytes();
    let b = encode_claims(c);
    let n = c.sub.len() as u64;
    let m = c.iss.len() as u64;
    assert(b.subrange(1, 9) =~= spec_u64_to_le_bytes(c.issued_at));
    assert(b.subrange(9, 17) =~= spec_u64_to_le_bytes(c.expires_at));
    assert(b.subrange(17, 25) =~= spec_u64_to_le_bytes(c.token_id));
    assert(b.subrange(25, 33) =~= spec_u64_to_le_bytes(n));
    assert(b.subrange(33, 41) =~= spec_u64_to_le_bytes(m));
    assert(b.subrange(41, 41 + n) =~= c.sub);
    assert(b.subrange(41 + n, 41 + n + m) =~= c.iss);
    assert(b.subrange(41 + n + m, b.len() as int) =~= c.scope);
}

/// The encoding is canonical: a byte string that decodes is the encoding of
/// what it decodes to.
pub proof fn lemma_encode_decode(b: Seq<u8>)
    requires
        decode_claims(b) is Some,
        b.len() < HMAC_INPUT_LIMIT,
    ensures
        encodable(decode_claims(b).unwrap()),
        encode_claims(decode_claims(b).unwrap()) == b,
{
    lemma_auto_spec_u64_to_from_le_bytes();
    let c = decode_claims(b).unwrap();
    assert(spec_u64_to_le_bytes(spec_u64_from_le_bytes(b.subrange(25, 33))) == b.subrange(25, 33));
    assert(spec_u64_to_le_bytes(spec_u64_from_le_bytes(b.subrange(33, 41))) == b.subrange(33, 41));
    assert(spec_u64_to_le_bytes(spec_u64_from_le_bytes(b.subrange(1, 9))) == b.subrange(1, 9));
    assert(spec_u64_to_le_bytes(spec_u64_from_le_bytes(b.subrange(9, 17))) == b.subrange(9, 17));
    assert(spec_u64_to_le_bytes(spec_u64_from_le_bytes(b.subrange(17, 25))) == b.subrange(17, 25));
    assert(encode_claims(c) =~= b);
}


/// Appends `s` to `out`.
pub fn push_all(out: &mut Vec<u8>, s: &[u8])
    ensures
        final(out)@ == old(out)@ + s@,
{
    let mut i: usize = 0;
    while i < s.len()
        invariant
            i <= s@.len(),
            out@ == old(out)@ + s@.subrange(0, i as int),
        decreases s@.len() - i,
    {
        out.push(s[i]);
        i = i + 1;
        assert(s@.subrange(0, i as int) =~= s@.subrange(0, i - 1) + seq![s@[i - 1]]);
    }
    assert(s@.subrange(0, s@.len() as int) =~= s@);
}

/// Encodes a claim set.
pub fn encode(c: &Claims) -> (r: Vec<u8>)
    ensures
        r@ == encode_claims(c@),
        r@.len() == HEADER_LEN + c.sub@.len() + c.iss@.len() + c.scope@.len(),
{
    let mut out: Vec<u8> = Vec::new();
    match c.kind {
        TokenKind::Access => out.push(0u8),
        TokenKind::Refresh => out.push(1u8),
    }
    let iat = u64_to_le_bytes(c.issued_at);
    push_all(&mut out, iat.as_slice());
    let exp = u64_to_le_bytes(c.expires_at);
    push_all(&mut out, exp.as_slice());
    let id = u64_to_le_bytes(c.token_id);
    push_all(&mut out, id.as_slice());
    let n = u64_to_le_bytes(c.sub.len() as u64);
    push_all(&mut out, n.as_slice());
    let m = u64_to_le_bytes(c.iss.len() as u64);
    push_all(&mut out, m.as_slice());
    push_all(&mut out, c.sub.as_slice());
    push_all(&mut out, c.iss.as_slice());
    push_all(&mut out, c.scope.as_slice());
    assert(out@ =~= encode_claims(c@));
    out
}

/// Decodes a claim set.
pub fn decode(b: &[u8]) -> (r: Option<Claims>)
    ensures
        match r {
            None => decode_claims(b@) is None,
            Some(c) => decode_claims(b@) == Some(c@),
        },
{
    if b.len() < HEADER_LEN {
        return None;
    }
    let kind = if b[0] == 0u8 {
        TokenKind::Access
    } else if b[0] == 1u8 {
        TokenKind::Refresh
    } else {
        return None;
    };
    let n = u64_from_le_bytes(vstd::slice::slice_subrange(b, 25, 33));
    let m = u64_from_le_bytes(vstd::slice::slice_subrange(b, 33, 41));
    if n > (b.len() - HEADER_LEN) as u64 {
        return None;
    }
    let n = n as usize;
    if m > (b.len() - HEADER_LEN - n) as u64 {
        return None;
    }
    let m = m as usize;
    let issued_at = u64_from_le_bytes(vstd::slice::slice_subrange(b, 1, 9));
    let expires_at = u64_from_le_bytes(vstd::slice::slice_subrange(b, 9, 17));
    let token_id = u64_from_le_bytes(vstd::slice::slice_subrange(b, 17, 25));
    let sub = vstd::slice::slice_to_vec(vstd::slice::slice_subrange(b, 41, 41 + n));
    let iss = vstd::slice::slice_to_vec(vstd::slice::slice_subrange(b, 41 + n, 41 + n + m));
    let scope = vstd::slice::slice_to_vec(vstd::slice::slice_subrange(b, 41 + n + m, b.len()));
    let c = Claims { kind, sub, iss, scope, issued_at, expires_at, token_id };
    assert(decode_claims(b@) == Some(c@));
    Some(c)
}

} // verus!
