//! The client registry: registered clients, and the check of a client's
//! redirect URI and credentials.
use vstd::prelude::*;
use crate::crypto::{argon2_accepts, argon2_check, argon2_store, ARGON2_MAX_LEN};
use vstd::utf8::encode_utf8;

verus! {

#[derive(Clone, Copy, Debug, PartialEq, Eq, Structural)]
pub enum RegistrarError {
    UnknownClient,
    RedirectMismatch,
    BadSecret,
    UnexpectedSecret,
    DuplicateClient,
}

/// A client either has no secret, or keeps only the Argon2 encoding of it.
#[derive(Debug)]
pub enum ClientKind {
    Public,
    Confidential { secret_hash: Vec<u8> },
}

#[derive(Debug)]
pub struct Client {
    pub client_id: String,
    pub kind: ClientKind,
    pub redirect_uri: String,
    pub additional_redirect_uris: Vec<String>,
    pub default_scope: String,
}

/// `uri` is the primary or one of the additional redirect URIs of `c`.
pub open spec fn redirect_registered(c: Client, uri: Seq<char>) -> bool {
    c.redirect_uri@ == uri || exists|k: int|
        0 <= k < c.additional_redirect_uris@.len() && #[trigger] c.additional_redirect_uris@[k]@ == uri
}

/// The view of a presented secret.
pub open spec fn secret_view(secret: Option<&[u8]>) -> Option<Seq<u8>> {
    match secret {
        Some(s) => Some(s@),
        None => None,
    }
}

/// The check of a presented redirect URI and secret against client `c`.
pub open spec fn client_check(c: Client, uri: Seq<char>, secret: Option<Seq<u8>>) -> Result<(), RegistrarError> {
    if !redirect_registered(c, uri) {
        Err(RegistrarError::RedirectMismatch)
    } else {
        match c.kind {
            ClientKind::Public => if secret matches Some(s) && s.len() > 0 {
                Err(RegistrarError::UnexpectedSecret)
            } else {
                Ok(())
            },
            ClientKind::Confidential { secret_hash } => match secret {
                Some(s) => if argon2_accepts(c.client_id@, s, secret_hash@) {
                    Ok(())
                } else {
                    Err(RegistrarError::BadSecret)
                },
                None => Err(RegistrarError::BadSecret),
            },
        }
    }
}

impl Client {
    /// A client without a secret.
    pub fn public(client_id: String, redirect_uri: String, default_scope: String) -> (r: Client)
        ensures
            r.client_id == client_id,
            r.kind is Public,
            r.redirect_uri == redirect_uri,
            r.additional_redirect_uris@ == Seq::<String>::empty(),
            r.default_scope == default_scope,
    {
        Client { client_id, kind: ClientKind::Public, redirect_uri, additional_redirect_uris: Vec::new(), default_scope }
    }

    /// A client with a secret, of which only the Argon2 encoding is kept.
    pub fn confidential(client_id: String, redirect_uri: String, default_scope: String, secret: &[u8]) -> (r: Client)
        requires
            encode_utf8(client_id@).len() <= ARGON2_MAX_LEN,
            secret@.len() <= ARGON2_MAX_LEN,
        ensures
            r.client_id == client_id,
            r.kind matches ClientKind::Confidential { secret_hash } && argon2_accepts(client_id@, secret@, secret_hash@),
            r.redirect_uri == redirect_uri,
            r.additional_redirect_uris@ == Seq::<String>::empty(),
            r.default_scope == default_scope,
    {
        let secret_hash = argon2_store(client_id.as_str(), secret);
        Client {
            client_id,
            kind: ClientKind::Confidential { secret_hash },
            redirect_uri,
            additional_redirect_uris: Vec::new(),
            default_scope,
        }
    }

    /// This client with `uris` as its additional redirect URIs.
    pub fn with_additional_redirect_uris(self, uris: Vec<String>) -> (r: Client)
        ensures
            r == (Client { additional_redirect_uris: uris, ..self }),
    {
        Client { additional_redirect_uris: uris, ..self }
    }

    /// Whether `uri` is one of this client's redirect URIs.
    pub fn has_redirect_uri(&self, uri: &str) -> (r: bool)
        ensures
            r == redirect_registered(*self, uri@),
    {
        if same_text(&self.redirect_uri, uri) {
            return true;
        }
        let mut k: usize = 0;
        while k < self.additional_redirect_uris.len()
            invariant
                self.redirect_uri@ != uri@,
                forall|j: int| 0 <= j < k ==> #[trigger] self.additional_redirect_uris@[j]@ != uri@,
            decreases self.additional_redirect_uris@.len() - k,
        {
            if same_text(&self.additional_redirect_uris[k], uri) {
                return true;
            }
            k = k + 1;
        }
        false
    }

    /// Checks a presented redirect URI and secret against this client; a
    /// confidential client's secret is checked against its Argon2 encoding,
    /// in constant time.
    pub fn check(&self, uri: &str, secret: Option<&[u8]>) -> (r: Result<(), RegistrarError>)
        ensures
            r == client_check(*self, uri@, secret_view(secret)),
    {
        if !self.has_redirect_uri(uri) {
            return Err(RegistrarError::RedirectMismatch);
        }
        match &self.kind {
            ClientKind::Public => match secret {
                Some(s) => if s.len() > 0 {
                    Err(RegistrarError::UnexpectedSecret)
                } else {
                    Ok(())
                },
                None => Ok(()),
            },
            ClientKind::Confidential { secret_hash } => match secret {
                Some(s) => if argon2_check(self.client_id.as_str(), s, secret_hash.as_slice()) {
                    Ok(())
                } else {
                    Err(RegistrarError::BadSecret)
                },
                None => Err(RegistrarError::BadSecret),
            },
        }
    }
}

/// Whether `a` and `b` hold the same text.
fn same_text(a: &String, b: &str) -> (r: bool)
    ensures
        r == (a@ == b@),
{
    let t = b.to_owned();
    a.eq(&t)
}

/// Some client in `cs` has the id `id`.
pub open spec fn has_client(cs: Seq<Client>, id: Seq<char>) -> bool {
    exists|i: int| 0 <= i < cs.len() && #[trigger] cs[i].client_id@ == id
}

/// The index of the client with the id `id`.
pub open spec fn client_index(cs: Seq<Client>, id: Seq<char>) -> int
    recommends
        has_client(cs, id),
{
    choose|i: int| 0 <= i < cs.len() && #[trigger] cs[i].client_id@ == id
}

/// No two clients share an id.
pub open spec fn ids_unique(cs: Seq<Client>) -> bool {
    forall|i: int, j: int|
        0 <= i < cs.len() && 0 <= j < cs.len() && i != j ==> #[trigger] cs[i].client_id@ != #[trigger] cs[j].client_id@
}

/// What validating a client id, redirect URI and secret against the clients
/// `cs` gives.
pub open spec fn registry_validation(
    cs: Seq<Client>,
    id: Seq<char>,
    uri: Seq<char>,
    secret: Option<Seq<u8>>,
) -> Result<int, RegistrarError> {
    if !has_client(cs, id) {
        Err(RegistrarError::UnknownClient)
    } else {
        match client_check(cs[client_index(cs, id)], uri, secret) {
            Ok(()) => Ok(client_index(cs, id)),
            Err(e) => Err(e),
        }
    }
}

pub struct Registry {
    clients: Vec<Client>,
}

impl Registry {
    pub closed spec fn clients(&self) -> Seq<Client> {
        self.clients@
    }

    pub closed spec fn wf(&self) -> bool {
        ids_unique(self.clients@)
    }

    pub fn new() -> (r: Self)
        ensures
            r.wf(),
            r.clients() == Seq::<Client>::empty(),
    {
        Registry { clients: Vec::new() }
    }

    fn find(&self, client_id: &str) -> (r: Option<usize>)
        requires
            self.wf(),
        ensures
            match r {
                Some(i) => has_client(self.clients(), client_id@) && i == client_index(self.clients(), client_id@),
                None => !has_client(self.clients(), client_id@),
            },
    {
        let mut i: usize = 0;
        while i < self.clients.len()
            invariant
                self.wf(),
                forall|j: int| 0 <= j < i ==> #[trigger] self.clients@[j].client_id@ != client_id@,
            decreases self.clients@.len() - i,
        {
            if same_text(&self.clients[i].client_id, client_id) {
                assert(self.clients@[i as int].client_id@ == client_id@);
                assert(has_client(self.clients@, client_id@));
                let ghost c = client_index(self.clients(), client_id@);
                assert(self.clients@[c].client_id@ == client_id@);
                proof {
                    if c != i as int {
                        assert(self.clients@[c].client_id@ != self.clients@[i as int].client_id@);
                    }
                }
                return Some(i);
            }
            i = i + 1;
        }
        None
    }

    /// Adds a client, unless one with its id is registered.
    pub fn register(&mut self, client: Client) -> (r: Result<(), RegistrarError>)
        requires
            old(self).wf(),
        ensures
            final(self).wf(),
            has_client(old(self).clients(), client.client_id@) ==> r == Err::<(), RegistrarError>(
                RegistrarError::DuplicateClient,
            ) && final(self).clients() == old(self).clients(),
            !has_client(old(self).clients(), client.client_id@) ==> r is Ok && final(self).clients()
                == old(self).clients().push(client),
    {
        match self.find(client.client_id.as_str()) {
            Some(_) => Err(RegistrarError::DuplicateClient),
            None => {
                self.clients.push(client);
                assert forall|i: int, j: int|
                    0 <= i < self.clients@.len() && 0 <= j < self.clients@.len() && i != j
                        implies #[trigger] self.clients@[i].client_id@ != #[trigger] self.clients@[j].client_id@ by {
                    if i == self.clients@.len() - 1 {
                        assert(old(self).clients@[j] == self.clients@[j]);
                    } else if j == self.clients@.len() - 1 {
                        assert(old(self).clients@[i] == self.clients@[i]);
                    }
                }
                Ok(())
            },
        }
    }

    /// The client with id `client_id`.
    pub fn lookup(&self, client_id: &str) -> (r: Option<&Client>)
        requires
            self.wf(),
        ensures
            match r {
                Some(c) => has_client(self.clients(), client_id@) && *c == self.clients()[client_index(
                    self.clients(),
                    client_id@,
                )],
                None => !has_client(self.clients(), client_id@),
            },
    {
        match self.find(client_id) {
            Some(i) => Some(&self.clients[i]),
            None => None,
        }
    }

    /// Validates a client id with a presented redirect URI and secret, and
    /// gives the client.
    pub fn validate(&self, client_id: &str, redirect_uri: &str, secret: Option<&[u8]>) -> (r: Result<&Client, RegistrarError>)
        requires
            self.wf(),
        ensures
            match r {
                Ok(c) => registry_validation(self.clients(), client_id@, redirect_uri@, secret_view(secret))
                    matches Ok(i) && *c == self.clients()[i],
                Err(e) => registry_validation(self.clients(), client_id@, redirect_uri@, secret_view(secret))
                    == Err::<int, RegistrarError>(e),
            },
    {
        match self.find(client_id) {
            None => Err(RegistrarError::UnknownClient),
            Some(i) => match self.clients[i].check(redirect_uri, secret) {
                Ok(()) => Ok(&self.clients[i]),
                Err(e) => Err(e),
            },
        }
    }
}

/// A registered client validates exactly when the presented redirect URI is
/// one of its registered URIs and, for a confidential client, the presented
/// secret verifies against its stored encoding; a public client takes no
/// secret or an empty one. What validates is that same client.
pub proof fn lemma_validate_registered(reg: Registry, i: int, uri: Seq<char>, secret: Option<Seq<u8>>)
    requires
        reg.wf(),
        0 <= i < reg.clients().len(),
    ensures
        ({
            let c = reg.clients()[i];
            let r = registry_validation(reg.clients(), c.client_id@, uri, secret);
            &&& r is Ok <==> redirect_registered(c, uri) && match c.kind {
                ClientKind::Public => !(secret matches Some(s) && s.len() > 0),
                ClientKind::Confidential { secret_hash } => secret matches Some(s) && argon2_accepts(
                    c.client_id@,
                    s,
                    secret_hash@,
                ),
            }
            &&& r matches Ok(j) ==> j == i
        }),
{
    let cs = reg.clients();
    let id = cs[i].client_id@;
    assert(has_client(cs, id));
    let j = client_index(cs, id);
    if j != i {
        assert(cs[j].client_id@ != cs[i].client_id@);
    }
}

} // verus!
