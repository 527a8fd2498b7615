//! The server state: one client registry, one code store and one token
//! issuer, built from the configuration at startup.
use vstd::prelude::*;
use std::str::FromStr;
use crate::codes::CodeStore;
use crate::issuer::TokenIssuer;
use crate::registry::{Client, ClientKind, Registry};
use crate::crypto::{argon2_accepts, ARGON2_MAX_LEN, HMAC_INPUT_LIMIT};
use vstd::utf8::encode_utf8;

verus! {

/// The scope every client gets by default.
pub const DEFAULT_SCOPE: &'static str = "default-scope";

/// The normal form of a URL that parses, if it does.
pub uninterp spec fn url_serialization(s: Seq<char>) -> Option<Seq<char>>;

/// Whether a text parses as a scope.
pub uninterp spec fn scope_parses(s: Seq<char>) -> bool;

/// Relies on url::Url::parse (the `FromStr` of `Url`): an absolute URL in its
/// serialized normal form, or nothing when the text is no URL.
#[verifier::external_body]
fn parse_url(s: &str) -> (r: Option<String>)
    ensures
        match r {
            Some(u) => url_serialization(s@) == Some(u@),
            None => url_serialization(s@) is None,
        },
{
    match url::Url::parse(s) {
        Ok(u) => Some(u.into()),
        Err(_) => None,
    }
}

/// Relies on the `FromStr` of oxide_auth's `Scope`: whether the text is a
/// valid scope.
#[verifier::external_body]
fn scope_is_valid(s: &str) -> (r: bool)
    ensures
        r == scope_parses(s@),
{
    oxide_auth::primitives::scope::Scope::from_str(s).is_ok()
}

#[derive(Clone, Copy, Debug, PartialEq, Eq, Structural)]
pub enum StartupError {
    InvalidRedirectUri,
    InvalidScope,
}

/// The configuration the server starts from.
#[derive(Clone, Debug)]
pub struct Settings {
    pub client_id: String,
    /// A secret makes the client confidential; without one it is public.
    pub client_secret: Option<String>,
    pub redirect_uri: String,
    /// Each is kept when it parses and dropped when it does not.
    pub additional_redirect_uris: Vec<String>,
    pub signing_key: Vec<u8>,
    /// The issuer identity that tokens carry.
    pub issuer_name: String,
    /// Lifetimes in seconds.
    pub access_ttl: u64,
    pub refresh_ttl: u64,
    pub code_lifetime: u64,
}

/// The normal forms of those of `uris` that parse, in order.
pub open spec fn parsed_uris(uris: Seq<Seq<char>>) -> Seq<Seq<char>>
    decreases uris.len(),
{
    if uris.len() == 0 {
        Seq::empty()
    } else {
        let rest = parsed_uris(uris.drop_last());
        match url_serialization(uris.last()) {
            Some(u) => rest.push(u),
            None => rest,
        }
    }
}

/// The views of a list of strings.
pub open spec fn views(v: Seq<String>) -> Seq<Seq<char>> {
    v.map_values(|s: String| s@)
}

/// Parses each URI, keeping those that parse and dropping the others.
pub fn parse_uris_leniently(uris: &Vec<String>) -> (r: Vec<String>)
    ensures
        views(r@) == parsed_uris(views(uris@)),
{
    let mut out: Vec<String> = Vec::new();
    let mut i: usize = 0;
    while i < uris.len()
        invariant
            i <= uris@.len(),
            views(out@) == parsed_uris(views(uris@.subrange(0, i as int))),
        decreases uris@.len() - i,
    {
        let ghost before = out@;
        match parse_url(uris[i].as_str()) {
            Some(u) => out.push(u),
            None => {},
        }
        assert(views(uris@.subrange(0, i + 1)).drop_last() =~= views(uris@.subrange(0, i as int)));
        assert(views(out@) =~= parsed_uris(views(uris@.subrange(0, i + 1))));
        i = i + 1;
    }
    assert(uris@.subrange(0, uris@.len() as int) =~= uris@);
    out
}

/// The subsystems of the server, each owned exclusively.
pub struct State {
    pub registrar: Registry,
    pub authorizer: CodeStore,
    pub issuer: TokenIssuer,
    pub settings: Settings,
}

impl State {
    /// Builds the state: the configured client registered alone, an empty code
    /// store and an issuer with the configured key and lifetimes. Fails when
    /// the redirect URI or the default scope does not parse.
    pub fn new(settings: &Settings) -> (r: Result<Self, StartupError>)
        requires
            settings.signing_key@.len() < HMAC_INPUT_LIMIT,
            encode_utf8(settings.client_id@).len() <= ARGON2_MAX_LEN,
            settings.client_secret matches Some(s) ==> encode_utf8(s@).len() <= ARGON2_MAX_LEN,
        ensures
            url_serialization(settings.redirect_uri@) is None ==> r == Err::<Self, StartupError>(
                StartupError::InvalidRedirectUri,
            ),
            url_serialization(settings.redirect_uri@) is Some && !scope_parses(DEFAULT_SCOPE@) ==> r
                == Err::<Self, StartupError>(StartupError::InvalidScope),
            url_serialization(settings.redirect_uri@) is Some && scope_parses(DEFAULT_SCOPE@) ==> r is Ok,
            r matches Ok(st) ==> {
                &&& st.registrar.wf()
                &&& st.registrar.clients().len() == 1
                &&& {
                    let c = st.registrar.clients()[0];
                    &&& c.client_id@ == settings.client_id@
                    &&& Some(c.redirect_uri@) == url_serialization(settings.redirect_uri@)
                    &&& views(c.additional_redirect_uris@) == parsed_uris(views(settings.additional_redirect_uris@))
                    &&& c.default_scope@ == DEFAULT_SCOPE@
                    &&& match settings.client_secret {
                        None => c.kind is Public,
                        Some(s) => c.kind matches ClientKind::Confidential { secret_hash } && argon2_accepts(
                            settings.client_id@,
                            encode_utf8(s@),
                            secret_hash@,
                        ),
                    }
                }
                &&& st.authorizer.codes() == Map::<u128, crate::codes::CodeEntry>::empty()
                &&& st.authorizer.lifetime_view() == settings.code_lifetime
                &&& st.issuer.wf()
                &&& st.issuer.key_view() == settings.signing_key@
                &&& st.issuer.issuer_view() == encode_utf8(settings.issuer_name@)
                &&& st.issuer.access_ttl_view() == settings.access_ttl
                &&& st.issuer.refresh_ttl_view() == settings.refresh_ttl
            },
    {
        let redirect = match parse_url(settings.redirect_uri.as_str()) {
            Some(u) => u,
            None => return Err(StartupError::InvalidRedirectUri),
        };
        if !scope_is_valid(DEFAULT_SCOPE) {
            return Err(StartupError::InvalidScope);
        }
        let additional = parse_uris_leniently(&settings.additional_redirect_uris);
        let id = settings.client_id.clone();
        let scope = DEFAULT_SCOPE.to_owned();
        let client = match &settings.client_secret {
            Some(secret) => Client::confidential(id, redirect, scope, secret.as_str().as_bytes()),
            None => Client::public(id, redirect, scope),
        };
        let client = client.with_additional_redirect_uris(additional);
        let mut registrar = Registry::new();
        let _ = registrar.register(client);
        let authorizer = CodeStore::new(settings.code_lifetime);
        let key = vstd::slice::slice_to_vec(settings.signing_key.as_slice());
        let name = vstd::slice::slice_to_vec(settings.issuer_name.as_str().as_bytes());
        let issuer = TokenIssuer::new(key, name, settings.access_ttl, settings.refresh_ttl);
        Ok(State { registrar, authorizer, issuer, settings: settings.clone() })
    }
}

} // verus!
